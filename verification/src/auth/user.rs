//! User profiles: the checks and conversions of each request, apart from
//! the storage they use.
use vstd::prelude::*;
use crate::error::Error;
use crate::id::{sql_id_spec, UserId, USER_TAG};

verus! {

/// A user as clients see it.
#[derive(Clone, Debug)]
pub struct User {
    pub id: UserId,
    pub name: String,
    pub email: String,
}

/// The stored profile of a user.
#[derive(Clone, Debug)]
pub struct UserInfo {
    pub name: String,
    pub email: String,
}

/// New details of a user, as a client sends them.
#[derive(Clone, Debug)]
pub struct UpdateUser {
    pub name: String,
}

/// New details of a stored user.
#[derive(Clone, Debug)]
pub struct UpdateUserInfo {
    pub id: i64,
    pub name: String,
}

/// The database id of a user identifier; an identifier that names no user
/// is not found.
pub fn user_sql_id(id: UserId, key: &[u8; 16]) -> (result: Result<i64, Error>)
    ensures
        result == match sql_id_spec(USER_TAG, key@, id@) {
            Some(v) => Ok::<i64, Error>(v as i64),
            None => Err::<i64, Error>(Error::NotFound),
        },
{
    match id.sql_id(key) {
        Ok(v) => Ok(v),
        Err(_) => Err(Error::NotFound),
    }
}

/// Answers a request for a user's profile, from the stored profile if any.
pub fn get_user(user_id: UserId, info: Option<UserInfo>) -> (result: Result<User, Error>)
    ensures
        match info {
            None => result == Err::<User, Error>(Error::NotFound),
            Some(i) => result == Ok::<User, Error>(User { id: user_id, name: i.name, email: i.email }),
        },
{
    match info {
        None => Err(Error::NotFound),
        Some(i) => Ok(User { id: user_id, name: i.name, email: i.email }),
    }
}

/// Prepares the change of a user's profile; the user must exist.
pub fn update_user(user_id: UserId, user_info: UpdateUser, key: &[u8; 16]) -> (result: Result<
    UpdateUserInfo,
    Error,
>)
    ensures
        result == match sql_id_spec(USER_TAG, key@, user_id@) {
            Some(v) => Ok::<UpdateUserInfo, Error>(UpdateUserInfo { id: v as i64, name: user_info.name }),
            None => Err::<UpdateUserInfo, Error>(Error::NotFound),
        },
{
    let id = user_sql_id(user_id, key)?;
    Ok(UpdateUserInfo { id, name: user_info.name })
}

/// The answer to a profile change from the number of rows it changed: the
/// user's row, or none when there is no such user.
pub fn update_user_outcome(rows_affected: u64) -> (result: Result<(), Error>)
    requires
        rows_affected <= 1,
    ensures
        result == if rows_affected == 1 {
            Ok::<(), Error>(())
        } else {
            Err::<(), Error>(Error::NotFound)
        },
{
    if rows_affected == 1 {
        Ok(())
    } else {
        Err(Error::NotFound)
    }
}

} // verus!
