//! User endpoints: admin-gated listing, creation and deletion, a
//! self-or-admin single fetch, and the name update.

use vstd::prelude::*;

use crate::errors::{JsonError, JsonErrorModel};
use crate::guards::{get_jwt_session_and_user, spec_get_jwt_session_and_user};
use crate::jwt::JWT;
use crate::passwords::password_matches;
use crate::roles::{is_admin, spec_is_admin};
use crate::sessions::SessionStore;
use crate::strutil::strs;
use crate::user_store::UserStore;
use crate::users::{
    spec_user_to_res, user_to_res, UserDetailsDto, UserDto, UserModel, UserRes, UsersResList,
};
use crate::validation::{is_valid_email_addr, valid_email, valid_password};

verus! {

/// List users; admin only. The page is the first ten users in store
/// order, with the total count beside it.
pub fn get_users(
    jwt: Result<JWT, JsonError>,
    sessions: &SessionStore,
    users: &UserStore,
    now: i64,
) -> (r: Result<UsersResList, JsonError>)
    requires
        sessions.wf(),
        users.wf(),
    ensures
        match spec_get_jwt_session_and_user(*sessions, *users, jwt, now) {
            Err(e) => r is Err && r->Err_0@ == e,
            Ok((token, session, u)) => if spec_is_admin(u) {
                &&& r is Ok
                &&& r->Ok_0.total == users.s().len()
                &&& r->Ok_0.list@.len() == (if users.s().len() < 10 {
                    users.s().len()
                } else {
                    10
                })
                &&& (forall|i: int|
                    0 <= i < r->Ok_0.list@.len() ==> #[trigger] r->Ok_0.list@[i]@
                        == spec_user_to_res(users.s()[i]))
            } else {
                r is Err && r->Err_0@ == JsonErrorModel::Forbidden(
                    "You are not allowed to retrieve all users"@,
                )
            },
        },
{
    let jwts = match get_jwt_session_and_user(sessions, users, jwt, now) {
        Ok(j) => j,
        Err(e) => {
            return Err(e);
        },
    };
    if !is_admin(&jwts.user) {
        return Err(
            JsonError::Forbidden(String::from_str("You are not allowed to retrieve all users")),
        );
    }
    let sort_by = String::from_str("name");
    let sort_dir = String::from_str("asc");
    proof {
        reveal_strlit("name");
        reveal_strlit("email");
        reveal_strlit("firstname");
        reveal_strlit("lastname");
        assert("name"@.len() == 4 && "email"@.len() == 5 && "firstname"@.len() == 9
            && "lastname"@.len() == 8);
        assert(crate::user_store::spec_sort_of(sort_by@, sort_dir@) is None);
    }
    let page = users.get_users(0, 10, &sort_by, &sort_dir);
    let total = page.total;
    let mut list: Vec<UserRes> = Vec::new();
    let mut source = page.list;
    let ghost models = Seq::new(source@.len(), |i: int| source@[i]@);
    let mut k: usize = 0;
    proof {
        assert(source@.len() <= users.s().len());
    }
    #[verifier::loop_isolation(false)]
    while k < source.len()
        invariant
            k <= source@.len(),
            source@.len() == models.len(),
            forall|i: int| 0 <= i < source@.len() ==> #[trigger] source@[i]@ == models[i],
            list@.len() == k,
            forall|i: int| 0 <= i < k ==> #[trigger] list@[i]@ == spec_user_to_res(models[i]),
        decreases source@.len() - k,
    {
        let item = source[k].clone();
        list.push(user_to_res(item));
        k = k + 1;
    }
    Ok(UsersResList { list, total })
}

/// Fetch one user: a caller may fetch themself; anybody else requires
/// the admin role.
pub fn get_user(
    id: u64,
    jwt: Result<JWT, JsonError>,
    sessions: &SessionStore,
    users: &UserStore,
    now: i64,
) -> (r: Result<UserRes, JsonError>)
    requires
        sessions.wf(),
        users.wf(),
    ensures
        match spec_get_jwt_session_and_user(*sessions, *users, jwt, now) {
            Err(e) => r is Err && r->Err_0@ == e,
            Ok((token, session, u)) => {
                &&& (u.id != id && !spec_is_admin(u)) ==> r is Err && r->Err_0@
                    == JsonErrorModel::Forbidden("Forbidden"@)
                &&& ((u.id == id || spec_is_admin(u)) && !users.contains_id(id)) ==> r is Err
                    && r->Err_0@ == JsonErrorModel::NotFound("User not found"@)
                &&& ((u.id == id || spec_is_admin(u)) && users.contains_id(id)) ==> r is Ok
                    && r->Ok_0@ == spec_user_to_res(users.spec_get(id)->0)
            },
        },
{
    let jwts = match get_jwt_session_and_user(sessions, users, jwt, now) {
        Ok(j) => j,
        Err(e) => {
            return Err(e);
        },
    };
    if id != jwts.user.id && !is_admin(&jwts.user) {
        return Err(JsonError::Forbidden(String::from_str("Forbidden")));
    }
    match users.get_user_by_id(id) {
        Some(user) => Ok(user_to_res(user)),
        None => Err(JsonError::NotFound(String::from_str("User not found"))),
    }
}

/// Create a user; admin only. The e-mail address must be syntactically
/// valid and not taken, the password strong enough; the stored record
/// carries a hash of the password, never the password itself, and
/// starts with no memberships.
pub fn create_user(
    user: UserDto,
    jwt: Result<JWT, JsonError>,
    sessions: &SessionStore,
    users: &mut UserStore,
    now: i64,
) -> (r: Result<UserRes, JsonError>)
    requires
        sessions.wf(),
        old(users).wf(),
        old(users).next_id < u64::MAX,
    ensures
        final(users).wf(),
        r is Err ==> final(users).s() == old(users).s() && final(users).next_id == old(
            users,
        ).next_id,
        match spec_get_jwt_session_and_user(*sessions, *old(users), jwt, now) {
            Err(e) => r is Err && r->Err_0@ == e,
            Ok((token, session, u)) => {
                &&& !spec_is_admin(u) ==> r is Err && r->Err_0@ == JsonErrorModel::Forbidden(
                    "Forbidden"@,
                )
                &&& (spec_is_admin(u) && !is_valid_email_addr(user.email@)) ==> r is Err
                    && r->Err_0@ == JsonErrorModel::BadRequest("Invalid email address"@)
                &&& (spec_is_admin(u) && is_valid_email_addr(user.email@) && user.password@.len()
                    < 8) ==> r is Err && r->Err_0@ == JsonErrorModel::BadRequest(
                    "Password is not strong enough"@,
                )
                &&& (spec_is_admin(u) && is_valid_email_addr(user.email@) && old(
                    users,
                ).contains_email(user.email@)) ==> r is Err
                &&& (spec_is_admin(u) && is_valid_email_addr(user.email@) && user.password@.len()
                    >= 8 && !old(users).contains_email(user.email@)) ==> (r is Ok || r->Err_0@
                    == JsonErrorModel::BadRequest("Password is not strong enough"@) || r->Err_0@
                    == JsonErrorModel::Internal("Error creating user"@))
                &&& r is Ok ==> {
                    &&& spec_is_admin(u)
                    &&& is_valid_email_addr(user.email@)
                    &&& user.password@.len() >= 8
                    &&& !old(users).contains_email(user.email@)
                    &&& final(users).next_id == old(users).next_id + 1
                    &&& final(users).s().len() == old(users).s().len() + 1
                    &&& final(users).s() == old(users).s().push(final(users).s().last())
                    &&& {
                        let nu = final(users).s().last();
                        &&& nu.id == old(users).next_id
                        &&& nu.email == user.email@
                        &&& password_matches(user.password@, nu.pwdhash)
                        &&& nu.firstname == user.firstname@
                        &&& nu.lastname == user.lastname@
                        &&& nu.roles == Some(strs(user.roles))
                        &&& nu.accounts == Some(Seq::<crate::users::UserAccount>::empty())
                        &&& nu.created_at == now && nu.updated_at == now
                        &&& r->Ok_0@ == spec_user_to_res(nu)
                    }
                }
            },
        },
{
    let jwts = match get_jwt_session_and_user(sessions, users, jwt, now) {
        Ok(j) => j,
        Err(e) => {
            return Err(e);
        },
    };
    if !is_admin(&jwts.user) {
        return Err(JsonError::Forbidden(String::from_str("Forbidden")));
    }
    if !valid_email(user.email.as_str()) {
        return Err(JsonError::BadRequest(String::from_str("Invalid email address")));
    }
    if !valid_password(user.password.as_str()) {
        return Err(JsonError::BadRequest(String::from_str("Password is not strong enough")));
    }
    let id = match users.create_user(user, now) {
        Ok(id) => id,
        Err(e) => {
            return Err(e);
        },
    };
    proof {
        let n = old(users).s().len() as int;
        assert(users.s()[n].id == id);
        users.lemma_idx_of(n);
    }
    match users.get_user_by_id(id) {
        Some(u) => Ok(user_to_res(u)),
        None => Err(JsonError::NotFound(String::from_str("User not found"))),
    }
}

/// Update a user's name fields. This route carries no authorization
/// guard of its own. A write that modifies
/// nothing is reported as missing, even for a user that exists: only
/// the modified count is consulted.
pub fn update_user(id: u64, user: UserDetailsDto, users: &mut UserStore, now: i64) -> (r: Result<
    UserRes,
    JsonError,
>)
    requires
        old(users).wf(),
    ensures
        final(users).wf(),
        final(users).next_id == old(users).next_id,
        r is Err ==> final(users).s() == old(users).s(),
        !old(users).contains_id(id) ==> r is Err && r->Err_0@ == JsonErrorModel::NotFound(
            "User not found"@,
        ),
        old(users).contains_id(id) ==> {
            let i = old(users).idx_of(id);
            let u = old(users).s()[i];
            let nu = UserModel {
                firstname: user.firstname@,
                lastname: user.lastname@,
                updated_at: now,
                ..u
            };
            &&& (u == nu ==> r is Err && r->Err_0@ == JsonErrorModel::NotFound("User not found"@)
                && final(users).s() == old(users).s())
            &&& (u != nu ==> r is Ok && r->Ok_0@ == spec_user_to_res(nu) && final(users).s()
                == old(users).s().update(i, nu))
        },
{
    let outcome = users.update_user(id, user, now);
    if outcome.modified_count == 0 {
        return Err(JsonError::NotFound(String::from_str("User not found")));
    }
    proof {
        let i = old(users).idx_of(id);
        assert(users.s()[i].id == id);
        users.lemma_idx_of(i);
    }
    match users.get_user_by_id(id) {
        Some(u) => Ok(user_to_res(u)),
        None => Err(JsonError::NotFound(String::from_str("User not found"))),
    }
}

/// Delete a user; admin only. The deleted user's public projection is
/// returned.
pub fn delete_user(
    id: u64,
    jwt: Result<JWT, JsonError>,
    sessions: &SessionStore,
    users: &mut UserStore,
    now: i64,
) -> (r: Result<UserRes, JsonError>)
    requires
        sessions.wf(),
        old(users).wf(),
    ensures
        final(users).wf(),
        final(users).next_id == old(users).next_id,
        r is Err ==> final(users).s() == old(users).s(),
        match spec_get_jwt_session_and_user(*sessions, *old(users), jwt, now) {
            Err(e) => r is Err && r->Err_0@ == e,
            Ok((token, session, u)) => {
                &&& !spec_is_admin(u) ==> r is Err && r->Err_0@ == JsonErrorModel::Forbidden(
                    "Forbidden"@,
                )
                &&& (spec_is_admin(u) && !old(users).contains_id(id)) ==> r is Err && r->Err_0@
                    == JsonErrorModel::NotFound("User not found"@)
                &&& (spec_is_admin(u) && old(users).contains_id(id)) ==> r is Ok && r->Ok_0@
                    == spec_user_to_res(old(users).spec_get(id)->0) && final(users).s() == old(
                    users,
                ).s().remove(old(users).idx_of(id)) && !final(users).contains_id(id)
            },
        },
{
    let jwts = match get_jwt_session_and_user(sessions, users, jwt, now) {
        Ok(j) => j,
        Err(e) => {
            return Err(e);
        },
    };
    if !is_admin(&jwts.user) {
        return Err(JsonError::Forbidden(String::from_str("Forbidden")));
    }
    let user = match users.get_user_by_id(id) {
        Some(u) => u,
        None => {
            return Err(JsonError::NotFound(String::from_str("User not found")));
        },
    };
    let deleted = users.delete_user(id);
    if deleted.deleted_count == 0 {
        return Err(JsonError::NotFound(String::from_str("User not found")));
    }
    Ok(user_to_res(user))
}

} // verus!
