//! Errors of the service and the HTTP answer each one gets.
use vstd::prelude::*;

verus! {

/// Why a request failed.
#[derive(Clone, Debug)]
pub enum Error {
    /// An account with the e-mail address exists already.
    AccountExists,
    /// The request broke one of the input rules; the text says which.
    Validation(&'static str),
    /// The e-mail address and password do not match an account.
    InvalidCredentials,
    /// The request carries no valid session.
    LoggedOff,
    /// The record asked for does not exist.
    NotFound,
    /// The user may not do what the request asks.
    Unauthorized,
    /// Something outside the request failed; the text says during what.
    Internal(&'static str),
}

/// The HTTP status with which an error is answered.
pub open spec fn status_of(e: Error) -> u16 {
    match e {
        Error::AccountExists => 409,
        Error::Validation(_) => 422,
        Error::InvalidCredentials => 401,
        Error::LoggedOff => 401,
        Error::NotFound => 404,
        Error::Unauthorized => 403,
        Error::Internal(_) => 500,
    }
}

/// The text shown to the client for an error.
pub open spec fn message_of(e: Error) -> Seq<char> {
    match e {
        Error::AccountExists => "account already exists"@,
        Error::Validation(m) => m@,
        Error::InvalidCredentials => "invalid credentials"@,
        Error::LoggedOff => "logged off"@,
        Error::NotFound => "not found"@,
        Error::Unauthorized => "unauthorized"@,
        Error::Internal(_) => "an unexpected error occurred"@,
    }
}

/// The status of an error depends on its kind alone, never on its text:
/// every broken input rule is answered 422 (Unprocessable Entity) and every
/// internal failure 500, whatever their messages say.
pub proof fn law_status_ignores_text(a: &'static str, b: &'static str)
    ensures
        status_of(Error::Validation(a)) == 422,
        status_of(Error::Validation(a)) == status_of(Error::Validation(b)),
        status_of(Error::Internal(a)) == 500,
        status_of(Error::Internal(a)) == status_of(Error::Internal(b)),
{
}

/// Only a refused request is answered with a client error (4xx), and only
/// an internal failure with a server error (5xx).
pub proof fn law_status_classes(e: Error)
    ensures
        400 <= status_of(e) < 500 <==> !(e is Internal),
        500 <= status_of(e) < 600 <==> e is Internal,
{
}

impl Error {
    /// The HTTP status code of the answer.
    pub fn status_code(&self) -> (result: u16)
        ensures
            result == status_of(*self),
            self is Validation ==> result == 422,
            self is Internal ==> result == 500,
            self is AccountExists ==> result == 409,
            self is InvalidCredentials || self is LoggedOff ==> result == 401,
            self is NotFound ==> result == 404,
            self is Unauthorized ==> result == 403,
    {
        match self {
            Error::AccountExists => 409,
            Error::Validation(_) => 422,
            Error::InvalidCredentials => 401,
            Error::LoggedOff => 401,
            Error::NotFound => 404,
            Error::Unauthorized => 403,
            Error::Internal(_) => 500,
        }
    }

    /// The text of the error, as the client sees it.
    pub fn message(&self) -> (result: String)
        ensures
            result@ == message_of(*self),
    {
        match self {
            Error::AccountExists => String::from_str("account already exists"),
            Error::Validation(m) => String::from_str(m),
            Error::InvalidCredentials => String::from_str("invalid credentials"),
            Error::LoggedOff => String::from_str("logged off"),
            Error::NotFound => String::from_str("not found"),
            Error::Unauthorized => String::from_str("unauthorized"),
            Error::Internal(_) => String::from_str("an unexpected error occurred"),
        }
    }
}

} // verus!
