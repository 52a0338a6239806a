//! The authorization resolver. Every protected resource family applies
//! the same decision procedure: admins bypass the membership check, a
//! caller with no membership list is denied outright, an absent resource
//! is reported as missing, and otherwise access is granted exactly when
//! the caller is a member of the account that owns the resource.

use vstd::prelude::*;

use crate::roles::{is_admin, spec_is_admin};
use crate::users::{User, UserModel};

verus! {

/// The resolver's verdict on one caller/resource pair.
#[derive(Clone, Copy, Debug, PartialEq, Eq, Structural)]
pub enum Access {
    /// The caller may operate on the resource.
    Granted,
    /// The caller is authenticated but lacks tenancy or role permission.
    Forbidden,
    /// No resource with the addressed id exists.
    NotFound,
}

/// Whether the user's membership list contains the given account.
pub open spec fn spec_member_of(u: UserModel, account_id: u64) -> bool {
    u.accounts is Some && exists|i: int|
        0 <= i < u.accounts->0.len() && u.accounts->0[i].account_id == account_id
}

/// The decision procedure over a caller and the owning account of the
/// addressed resource (`None` when the resource does not exist): a
/// caller with zero memberships — an absent or empty list — is denied
/// outright, before the resource is even looked at, unless admin; an
/// absent resource is missing; a present membership list must contain
/// the owning account unless the caller is admin.
pub open spec fn spec_decide(u: UserModel, owner: Option<u64>) -> Access {
    if (u.accounts is None || u.accounts->0.len() == 0) && !spec_is_admin(u) {
        Access::Forbidden
    } else if owner is None {
        Access::NotFound
    } else if u.accounts is Some && !spec_member_of(u, owner->0) && !spec_is_admin(u) {
        Access::Forbidden
    } else {
        Access::Granted
    }
}

/// Whether the user's membership list contains the given account id.
pub fn member_of(user: &User, account_id: u64) -> (r: bool)
    ensures
        r == spec_member_of(user@, account_id),
{
    match &user.accounts {
        None => false,
        Some(accounts) => {
            let mut k: usize = 0;
            while k < accounts.len()
                invariant
                    k <= accounts@.len(),
                    user.accounts == Some(*accounts),
                    forall|i: int| 0 <= i < k ==> accounts@[i].account_id != account_id,
                decreases accounts@.len() - k,
            {
                if accounts[k].account_id == account_id {
                    assert(user@.accounts->0[k as int].account_id == account_id);
                    return true;
                }
                k = k + 1;
            }
            false
        },
    }
}

/// Apply the decision procedure to a caller and the owning account of
/// the addressed resource (`None` when the resource does not exist).
pub fn decide_access(user: &User, owner: Option<u64>) -> (r: Access)
    ensures
        r == spec_decide(user@, owner),
{
    let admin = is_admin(user);
    let memberless = match &user.accounts {
        None => true,
        Some(accounts) => accounts.len() == 0,
    };
    if memberless && !admin {
        return Access::Forbidden;
    }
    match owner {
        None => Access::NotFound,
        Some(account_id) => {
            if user.accounts.is_some() && !member_of(user, account_id) && !admin {
                Access::Forbidden
            } else {
                Access::Granted
            }
        },
    }
}

/// A caller with no account memberships at all and without the admin
/// role is denied outright: every tenant-resource access yields
/// `Forbidden`, whatever account owns the resource and whether or not
/// the addressed resource exists.
pub proof fn lemma_no_membership_forbidden(u: UserModel, owner: Option<u64>)
    requires
        !spec_is_admin(u),
        u.accounts is None || u.accounts->0.len() == 0,
    ensures
        spec_decide(u, owner) == Access::Forbidden,
{
}

/// For a resource owned by account `owner`, a non-admin caller is
/// granted access exactly when their membership list contains `owner`:
/// a member of a different account only is denied, a member of `owner`
/// succeeds.
pub proof fn lemma_membership_decides(u: UserModel, owner: u64)
    requires
        !spec_is_admin(u),
        u.accounts is Some,
    ensures
        spec_member_of(u, owner) ==> spec_decide(u, Some(owner)) == Access::Granted,
        !spec_member_of(u, owner) ==> spec_decide(u, Some(owner)) == Access::Forbidden,
{
}

/// The admin role bypasses the membership check: an admin is granted
/// access to every resource that exists, for every resource family,
/// regardless of their membership list.
pub proof fn lemma_admin_bypasses_membership(u: UserModel, owner: u64)
    requires
        spec_is_admin(u),
    ensures
        spec_decide(u, Some(owner)) == Access::Granted,
{
}

} // verus!
