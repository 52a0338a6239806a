//! Role tags. A user's `roles` list holds plain tags; the only tag with
//! authorization meaning is the admin tag.

use vstd::prelude::*;

use crate::strutil::vec_contains_string;
use crate::users::{User, UserModel};

verus! {

/// The role tags the system knows about.
#[derive(Clone, Copy, Debug, PartialEq, Eq, Structural)]
pub enum Role {
    Admin,
    AccountManager,
}

impl Role {
    /// The tag string stored in a user's role list for this role.
    pub fn to_string(&self) -> (res: String)
        ensures
            res@ == self.spec_tag(),
    {
        match self {
            Role::Admin => String::from_str("admin"),
            Role::AccountManager => String::from_str("account_manager"),
        }
    }

    pub open spec fn spec_tag(&self) -> Seq<char> {
        match self {
            Role::Admin => "admin"@,
            Role::AccountManager => "account_manager"@,
        }
    }
}

/// Whether a user carries the admin tag: the role list is present and
/// some entry equals the admin tag.
pub open spec fn spec_is_admin(u: UserModel) -> bool {
    u.roles is Some && exists|i: int|
        0 <= i < u.roles->0.len() && u.roles->0[i] == "admin"@
}

/// A user is an admin when their role list contains the admin tag; a
/// user without a role list is not.
pub fn is_admin(user: &User) -> (r: bool)
    ensures
        r == spec_is_admin(user@),
{
    match &user.roles {
        Some(roles) => {
            let tag = Role::Admin.to_string();
            vec_contains_string(roles, &tag)
        },
        None => false,
    }
}

} // verus!
