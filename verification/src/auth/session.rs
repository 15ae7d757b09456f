//! Signing up and signing in, apart from the storage they use.
use vstd::prelude::*;
use crate::auth::password::{
    hashable, hasher_valid, is_argon2id_phc, is_hash_of, lanes_in_range, password_verdict,
    verify_password, Password, PasswordHash,
};
use crate::auth::token::{
    access_claims, is_v4_uuid, new_refresh_secret, uuid_text, uuid_to_string, AccessClaims,
    RefreshToken,
};
use crate::auth::hashing::{argon2_verifies, phc_lanes_fit};
use crate::config::HasherConfig;
use crate::error::Error;
use crate::id::{aes128_encrypt, tagged, UserId, USER_TAG};
use vstd::utf8::encode_utf8;

verus! {

/// What a client sends to sign up or sign in.
#[derive(Clone)]
pub struct Credentials {
    pub email: String,
    pub password: String,
}

/// An account ready to be stored.
#[derive(Clone)]
pub struct NewUser {
    pub email: String,
    pub password_hash: PasswordHash,
    pub refresh_token: RefreshToken,
}

/// Why storing a new account failed.
#[derive(Clone, Copy, Debug, PartialEq, Eq)]
pub enum SaveFailure {
    /// An account with the e-mail address exists already.
    UniqueViolation,
    /// Any other database failure.
    Other,
}

/// The stored account that matches an e-mail address.
#[derive(Clone)]
pub struct DbUser {
    pub id: i64,
    pub password_hash: PasswordHash,
    pub refresh_token: RefreshToken,
}

/// What a successful sign-in hands out: the claims of the access token and
/// the stored refresh secret.
#[derive(Clone)]
pub struct SignedIn {
    pub claims: AccessClaims,
    pub refresh_token: RefreshToken,
}

/// The tokens of a session, as sent to the client.
#[derive(Clone)]
pub struct TokenPair {
    pub access_token: String,
    pub refresh_token: RefreshToken,
}

/// Name of the cookie that carries the access token.
pub const ACCESS_TOKEN: &'static str = "access-token";

/// Name of the cookie that carries the refresh secret.
pub const REFRESH_TOKEN: &'static str = "refresh-token";

/// A cookie to set on the client.
#[derive(Clone)]
pub struct SessionCookie {
    pub name: &'static str,
    pub value: String,
    pub path: &'static str,
    pub http_only: bool,
}

impl TokenPair {
    /// The cookies that hand a session to the client: the access token for
    /// every path, the refresh secret (as a hyphenated UUID) only for the
    /// path that renews sessions; neither readable by scripts.
    pub fn cookies(&self) -> (result: (SessionCookie, SessionCookie))
        ensures
            result.0.name == ACCESS_TOKEN,
            result.0.value@ == self.access_token@,
            result.0.path == "/",
            result.0.http_only,
            result.1.name == REFRESH_TOKEN,
            result.1.value@ == uuid_text(self.refresh_token.exposed()),
            result.1.path == "/auth/refresh",
            result.1.http_only,
    {
        let access = SessionCookie {
            name: ACCESS_TOKEN,
            value: self.access_token.clone(),
            path: "/",
            http_only: true,
        };
        let refresh = SessionCookie {
            name: REFRESH_TOKEN,
            value: uuid_to_string(*self.refresh_token.expose_secret()),
            path: "/auth/refresh",
            http_only: true,
        };
        (access, refresh)
    }
}

/// Prepares the account of a sign-up: the password must follow the password
/// rules; it is then hashed under `hasher` and a fresh refresh secret is
/// drawn. The e-mail address is passed on as it is.
pub fn sign_up(credentials: Credentials, hasher: &HasherConfig) -> (result: Result<NewUser, Error>)
    requires
        lanes_in_range(*hasher),
    ensures
        match password_verdict(credentials.password@) {
            Err(m) => result == Err::<NewUser, Error>(Error::Validation(m)),
            Ok(_) => if !hasher_valid(*hasher) {
                result == Err::<NewUser, Error>(Error::Internal("instantiate hasher"))
            } else {
                match result {
                    Ok(user) => {
                        &&& user.email == credentials.email
                        &&& is_hash_of(*hasher, credentials.password@, user.password_hash.exposed()@)
                        &&& is_argon2id_phc(user.password_hash.exposed()@)
                        &&& is_v4_uuid(user.refresh_token.exposed())
                    },
                    Err(e) => e == Error::Internal("generate salt") || e == Error::Internal(
                        "generate refresh token",
                    ) || (e == Error::Internal("hash password") && !hashable(
                        *hasher,
                        credentials.password@,
                    )),
                }
            },
        },
        // With a password that follows the rules and settings that hash it,
        // sign-up fails only where the operating system gives no random bytes.
        password_verdict(credentials.password@) is Ok && hasher_valid(*hasher) && hashable(
            *hasher,
            credentials.password@,
        ) ==> result is Ok || result == Err::<NewUser, Error>(Error::Internal("generate salt"))
            || result == Err::<NewUser, Error>(Error::Internal("generate refresh token")),
{
    let password = Password::new(credentials.password)?;
    let password_hash = password.hash(hasher)?;
    new_user(credentials.email, password_hash, new_refresh_secret())
}

/// The account of a sign-up from its e-mail address, its password hash and
/// the refresh secret drawn for it (`None` when the operating system gave
/// no random bytes). The e-mail address plays no part in the outcome.
pub fn new_user(email: String, password_hash: PasswordHash, refresh_token: Option<RefreshToken>) -> (result:
    Result<NewUser, Error>)
    ensures
        result == match refresh_token {
            Some(t) => Ok::<NewUser, Error>(NewUser { email, password_hash, refresh_token: t }),
            None => Err::<NewUser, Error>(Error::Internal("generate refresh token")),
        },
{
    match refresh_token {
        Some(t) => Ok(NewUser { email, password_hash, refresh_token: t }),
        None => Err(Error::Internal("generate refresh token")),
    }
}

/// The answer to a sign-up once the account was stored or refused.
pub fn sign_up_saved(outcome: Result<(), SaveFailure>) -> (result: Result<(), Error>)
    ensures
        result == match outcome {
            Ok(()) => Ok::<(), Error>(()),
            Err(SaveFailure::UniqueViolation) => Err::<(), Error>(Error::AccountExists),
            Err(SaveFailure::Other) => Err::<(), Error>(Error::Internal("execute sql")),
        },
{
    match outcome {
        Ok(()) => Ok(()),
        Err(SaveFailure::UniqueViolation) => Err(Error::AccountExists),
        Err(SaveFailure::Other) => Err(Error::Internal("execute sql")),
    }
}

/// The password of `credentials` matches the stored hash of `user`.
pub open spec fn password_matches(credentials: Credentials, user: DbUser, hasher: HasherConfig) -> bool {
    &&& phc_lanes_fit(user.password_hash.exposed()@)
    &&& argon2_verifies(
        encode_utf8(hasher.secret@),
        encode_utf8(credentials.password@),
        user.password_hash.exposed()@,
    )
}

/// Decides a sign-in from the account stored under the e-mail address, if
/// any, at the time `now` (seconds since the Unix epoch): the password must
/// match its hash; the user then gets access claims issued at `now` that
/// live `access_ttl_secs` seconds, and the stored refresh secret.
pub fn sign_in(
    credentials: &Credentials,
    user: Option<DbUser>,
    hasher: &HasherConfig,
    id_key: &[u8; 16],
    access_ttl_secs: u64,
    now: u64,
) -> (result: Result<SignedIn, Error>)
    requires
        lanes_in_range(*hasher),
    ensures
        !hasher_valid(*hasher) ==> result == Err::<SignedIn, Error>(Error::Internal("instantiate hasher")),
        hasher_valid(*hasher) ==> match user {
            None => result == Err::<SignedIn, Error>(Error::InvalidCredentials),
            Some(u) => if !password_matches(*credentials, u, *hasher) {
                result == Err::<SignedIn, Error>(Error::InvalidCredentials)
            } else if now + access_ttl_secs > u64::MAX {
                result == Err::<SignedIn, Error>(Error::Internal("create access token"))
            } else {
                match result {
                    Ok(s) => {
                        &&& s.claims.id@ == aes128_encrypt(id_key@, tagged(USER_TAG, u.id as u64))
                        &&& s.claims.iat == now
                        &&& s.claims.exp == now + access_ttl_secs
                        &&& s.refresh_token == u.refresh_token
                    },
                    Err(_) => false,
                }
            },
        },
        // The password that an account was made with signs in to it.
        hasher_valid(*hasher) && user is Some && is_hash_of(
            *hasher,
            credentials.password@,
            user->Some_0.password_hash.exposed()@,
        ) && now + access_ttl_secs <= u64::MAX ==> result is Ok,
{
    let hash = match &user {
        Some(u) => Some(&u.password_hash),
        None => None,
    };
    verify_password(credentials.password.as_str(), hash, hasher)?;
    match user {
        None => Err(Error::InvalidCredentials),
        Some(u) => {
            if now > u64::MAX - access_ttl_secs {
                return Err(Error::Internal("create access token"));
            }
            let id = UserId::new(u.id as u64, id_key);
            let claims = access_claims(id, now, access_ttl_secs);
            Ok(SignedIn { claims, refresh_token: u.refresh_token })
        },
    }
}

} // verus!
