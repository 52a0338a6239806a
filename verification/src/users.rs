//! User records: the identity store's row type, its public projection
//! (without the password hash), and the input shapes for user endpoints.

use vstd::prelude::*;

use crate::strutil::{clone_string_vec, strs};

verus! {

/// One account membership of a user. The `is_manager` flag is carried
/// but not currently enforced by any authorization rule.
#[derive(Clone, Copy, Debug, PartialEq, Eq, Structural)]
pub struct UserAccount {
    pub account_id: u64,
    pub is_manager: bool,
}

/// Full user record held by the identity store.
#[derive(Debug, PartialEq, Eq)]
pub struct User {
    pub id: u64,
    pub email: String,
    pub pwdhash: String,
    pub firstname: String,
    pub lastname: String,
    pub roles: Option<Vec<String>>,
    pub accounts: Option<Vec<UserAccount>>,
    pub created_at: i64,
    pub updated_at: i64,
}

/// Mathematical image of a `User`.
#[verifier::ext_equal]
pub struct UserModel {
    pub id: u64,
    pub email: Seq<char>,
    pub pwdhash: Seq<char>,
    pub firstname: Seq<char>,
    pub lastname: Seq<char>,
    pub roles: Option<Seq<Seq<char>>>,
    pub accounts: Option<Seq<UserAccount>>,
    pub created_at: i64,
    pub updated_at: i64,
}

impl View for User {
    type V = UserModel;

    open spec fn view(&self) -> UserModel {
        UserModel {
            id: self.id,
            email: self.email@,
            pwdhash: self.pwdhash@,
            firstname: self.firstname@,
            lastname: self.lastname@,
            roles: match self.roles {
                Some(v) => Some(strs(v)),
                None => None,
            },
            accounts: match self.accounts {
                Some(v) => Some(v@),
                None => None,
            },
            created_at: self.created_at,
            updated_at: self.updated_at,
        }
    }
}

impl Clone for User {
    fn clone(&self) -> (res: Self)
        ensures
            res@ == self@,
    {
        let res = User {
            id: self.id,
            email: self.email.clone(),
            pwdhash: self.pwdhash.clone(),
            firstname: self.firstname.clone(),
            lastname: self.lastname.clone(),
            roles: match &self.roles {
                Some(v) => Some(clone_string_vec(v)),
                None => None,
            },
            accounts: match &self.accounts {
                Some(v) => Some(clone_accounts(v)),
                None => None,
            },
            created_at: self.created_at,
            updated_at: self.updated_at,
        };
        proof {
            assert(res@ =~= self@);
        }
        res
    }
}

/// Clone a vector of memberships (element type is `Copy`).
pub fn clone_accounts(v: &Vec<UserAccount>) -> (res: Vec<UserAccount>)
    ensures
        res@ == v@,
{
    let mut res: Vec<UserAccount> = Vec::new();
    let mut k: usize = 0;
    while k < v.len()
        invariant
            k <= v@.len(),
            res@ =~= v@.take(k as int),
        decreases v@.len() - k,
    {
        res.push(v[k]);
        k = k + 1;
    }
    proof {
        assert(res@ =~= v@);
    }
    res
}

/// Public projection of a user: everything but the password hash, with
/// absent role and membership lists flattened to empty ones.
#[derive(Debug, PartialEq, Eq)]
pub struct UserRes {
    pub id: u64,
    pub email: String,
    pub firstname: String,
    pub lastname: String,
    pub roles: Vec<String>,
    pub accounts: Vec<UserAccount>,
    pub created_at: i64,
    pub updated_at: i64,
}

/// Mathematical image of a `UserRes`.
#[verifier::ext_equal]
pub struct UserResModel {
    pub id: u64,
    pub email: Seq<char>,
    pub firstname: Seq<char>,
    pub lastname: Seq<char>,
    pub roles: Seq<Seq<char>>,
    pub accounts: Seq<UserAccount>,
    pub created_at: i64,
    pub updated_at: i64,
}

impl View for UserRes {
    type V = UserResModel;

    open spec fn view(&self) -> UserResModel {
        UserResModel {
            id: self.id,
            email: self.email@,
            firstname: self.firstname@,
            lastname: self.lastname@,
            roles: strs(self.roles),
            accounts: self.accounts@,
            created_at: self.created_at,
            updated_at: self.updated_at,
        }
    }
}

impl Clone for UserRes {
    fn clone(&self) -> (res: Self)
        ensures
            res@ == self@,
    {
        let res = UserRes {
            id: self.id,
            email: self.email.clone(),
            firstname: self.firstname.clone(),
            lastname: self.lastname.clone(),
            roles: clone_string_vec(&self.roles),
            accounts: clone_accounts(&self.accounts),
            created_at: self.created_at,
            updated_at: self.updated_at,
        };
        proof {
            assert(res@ =~= self@);
        }
        res
    }
}

/// What `user_to_res` returns for a given user.
pub open spec fn spec_user_to_res(u: UserModel) -> UserResModel {
    UserResModel {
        id: u.id,
        email: u.email,
        firstname: u.firstname,
        lastname: u.lastname,
        roles: match u.roles {
            Some(r) => r,
            None => Seq::empty(),
        },
        accounts: match u.accounts {
            Some(a) => a,
            None => Seq::empty(),
        },
        created_at: u.created_at,
        updated_at: u.updated_at,
    }
}

/// Drop the password hash from a user record and flatten the optional
/// lists, producing the shape that responses carry.
pub fn user_to_res(user: User) -> (res: UserRes)
    ensures
        res@ == spec_user_to_res(user@),
{
    let ghost m = user@;
    let res = UserRes {
        id: user.id,
        email: user.email,
        firstname: user.firstname,
        lastname: user.lastname,
        roles: match user.roles {
            Some(r) => r,
            None => Vec::new(),
        },
        accounts: match user.accounts {
            Some(a) => a,
            None => Vec::new(),
        },
        created_at: user.created_at,
        updated_at: user.updated_at,
    };
    proof {
        assert(res@ =~= spec_user_to_res(m));
    }
    res
}

/// Input for creating a user.
#[derive(Debug, PartialEq, Eq)]
pub struct UserDto {
    pub email: String,
    pub password: String,
    pub firstname: String,
    pub lastname: String,
    pub roles: Vec<String>,
    pub accounts: Vec<UserAccount>,
}

/// Input for updating a user's name fields.
#[derive(Debug, PartialEq, Eq)]
pub struct UserDetailsDto {
    pub firstname: String,
    pub lastname: String,
}

/// Input carrying a bare password.
#[derive(Debug, PartialEq, Eq)]
pub struct UserPasswordDto {
    pub password: String,
}

/// A page of user records together with the total count.
#[derive(Debug, PartialEq, Eq)]
pub struct UsersList {
    pub list: Vec<User>,
    pub total: u64,
}

/// A page of public user projections together with the total count.
#[derive(Debug, PartialEq, Eq)]
pub struct UsersResList {
    pub list: Vec<UserRes>,
    pub total: u64,
}

} // verus!
