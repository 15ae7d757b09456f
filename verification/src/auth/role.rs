//! Roles of users and the permission check.
use vstd::prelude::*;
use crate::error::Error;

verus! {

/// What a user may do.
#[derive(Clone, Copy, Debug, PartialEq, Eq)]
pub enum Role {
    Administrator,
    Client,
}

/// The name under which a role is stored.
pub open spec fn role_name(role: Role) -> Seq<char> {
    match role {
        Role::Administrator => "administrator"@,
        Role::Client => "client"@,
    }
}

impl Role {
    /// The stored name of the role.
    pub fn name(&self) -> (result: String)
        ensures
            result@ == role_name(*self),
    {
        match self {
            Role::Administrator => String::from_str("administrator"),
            Role::Client => String::from_str("client"),
        }
    }

    /// The role stored under the name `s`.
    pub fn parse(s: &str) -> (result: Option<Role>)
        ensures
            match result {
                Some(role) => role_name(role) == s@,
                None => forall|role: Role| role_name(role) != s@,
            },
    {
        let given = String::from_str(s);
        if given == String::from_str("administrator") {
            Some(Role::Administrator)
        } else if given == String::from_str("client") {
            Some(Role::Client)
        } else {
            proof {
                assert forall|role: Role| role_name(role) != s@ by {
                    match role {
                        Role::Administrator => {},
                        Role::Client => {},
                    }
                }
            }
            None
        }
    }
}

/// Distinct roles are stored under distinct names, so reading a stored
/// name back gives the role that was stored.
pub proof fn law_role_name_injective(a: Role, b: Role)
    ensures
        role_name(a) == role_name(b) ==> a == b,
{
    reveal_strlit("administrator");
    reveal_strlit("client");
    if a != b {
        assert(role_name(a)[0] != role_name(b)[0]);
    }
}

/// Only administrators pass.
pub fn is_administrator(role: Role) -> (result: bool)
    ensures
        result == (role == Role::Administrator),
{
    match role {
        Role::Administrator => true,
        Role::Client => false,
    }
}

/// Decides a permission check from the role stored for the user, if the
/// user exists: no user means logged off; otherwise `has_permissions`
/// decides between passing and `Unauthorized`.
pub fn check_permission<F: Fn(Role) -> bool>(user_role: Option<Role>, has_permissions: F) -> (result:
    Result<(), Error>)
    requires
        forall|r: Role| has_permissions.requires((r,)),
    ensures
        match user_role {
            None => result == Err::<(), Error>(Error::LoggedOff),
            Some(r) => (result == Ok::<(), Error>(()) && has_permissions.ensures((r,), true)) || (
            result == Err::<(), Error>(Error::Unauthorized) && has_permissions.ensures((r,), false)),
        },
{
    match user_role {
        None => Err(Error::LoggedOff),
        Some(role) => {
            if has_permissions(role) {
                Ok(())
            } else {
                Err(Error::Unauthorized)
            }
        },
    }
}

/// The permission check of administrator-only requests.
pub fn require_administrator(user_role: Option<Role>) -> (result: Result<(), Error>)
    ensures
        result == match user_role {
            None => Err::<(), Error>(Error::LoggedOff),
            Some(Role::Administrator) => Ok::<(), Error>(()),
            Some(Role::Client) => Err::<(), Error>(Error::Unauthorized),
        },
{
    check_permission(user_role, |role: Role| -> (b: bool)
        ensures
            b == (role == Role::Administrator),
        { is_administrator(role) })
}

} // verus!
