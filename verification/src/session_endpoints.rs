//! Session endpoints: login, current-session lookup, renewal, logout
//! and password change.

use vstd::prelude::*;

use crate::accounts::{AccountModel, AccountStore, LoginAccount, LoginAccountModel};
use crate::config::Config;
use crate::errors::{JsonError, JsonErrorModel};
use crate::guards::{
    get_jwt_session, get_jwt_session_and_user, spec_get_jwt_session, spec_get_jwt_session_and_user,
};
use crate::jwt::{create_jwt, jwt_expiry, jwt_of, jwt_signing_ok, JWT};
use crate::passwords::{bcrypt_valid_hash, password_matches, verify_password};
use crate::sessions::{
    ChangePasswordDto, LoginDto, LoginResponseDto, Session, SessionStore,
};
use crate::user_store::UserStore;
use crate::users::{spec_user_to_res, user_to_res, UserAccount, UserRes};
use crate::validation::valid_password;

verus! {

/// The manager flag of the first membership naming `id`; absent
/// memberships carry no flag.
pub open spec fn spec_manager_flag(ms: Seq<UserAccount>, id: u64) -> bool
    decreases ms.len(),
{
    if ms.len() == 0 {
        false
    } else if ms[0].account_id == id {
        ms[0].is_manager
    } else {
        spec_manager_flag(ms.subrange(1, ms.len() as int), id)
    }
}

/// The manager flag of the first membership naming `id`.
#[verifier::loop_isolation(false)]
fn manager_flag(ms: &Vec<UserAccount>, id: u64) -> (r: bool)
    ensures
        r == spec_manager_flag(ms@, id),
{
    let mut k: usize = 0;
    proof {
        assert(ms@.subrange(0, ms@.len() as int) =~= ms@);
    }
    while k < ms.len()
        invariant
            k <= ms@.len(),
            spec_manager_flag(ms@, id) == spec_manager_flag(
                ms@.subrange(k as int, ms@.len() as int),
                id,
            ),
        decreases ms@.len() - k,
    {
        let ghost s = ms@.subrange(k as int, ms@.len() as int);
        proof {
            assert(s[0] == ms@[k as int]);
            assert(s.subrange(1, s.len() as int) =~= ms@.subrange(k as int + 1, ms@.len() as int));
        }
        if ms[k].account_id == id {
            return ms[k].is_manager;
        }
        k = k + 1;
    }
    false
}

/// The account ids of a membership list.
pub open spec fn spec_member_ids(ms: Seq<UserAccount>) -> Seq<u64> {
    Seq::new(ms.len(), |i: int| ms[i].account_id)
}

/// The accounts shown in a login response for a caller with the given
/// memberships: the stored accounts the caller belongs to, in store
/// order, each joined with the caller's manager flag.
pub open spec fn spec_login_accounts(accounts: AccountStore, ms: Seq<UserAccount>) -> Seq<
    LoginAccountModel,
> {
    AccountStore::spec_ids_filter(accounts.s(), spec_member_ids(ms)).map_values(
        |a: AccountModel| LoginAccountModel {
            id: a.id,
            name: a.name,
            created_at: a.created_at,
            updated_at: a.updated_at,
            is_manager: spec_manager_flag(ms, a.id),
        },
    )
}

/// Assemble a login response: the token, the user's public projection,
/// and the user's accounts joined with their manager flags.
#[verifier::loop_isolation(false)]
pub fn get_login_response(accounts: &AccountStore, token: String, user: UserRes) -> (r:
    LoginResponseDto)
    ensures
        r@.token == token@,
        r@.user == user@,
        r@.accounts == spec_login_accounts(*accounts, user.accounts@),
{
    let mut ids: Vec<u64> = Vec::new();
    let mut k: usize = 0;
    while k < user.accounts.len()
        invariant
            k <= user.accounts@.len(),
            ids@.len() == k,
            forall|i: int| 0 <= i < k ==> #[trigger] ids@[i] == user.accounts@[i].account_id,
        decreases user.accounts@.len() - k,
    {
        ids.push(user.accounts[k].account_id);
        k = k + 1;
    }
    proof {
        assert(ids@ =~= spec_member_ids(user.accounts@));
    }
    let found = accounts.get_accounts_by_object_ids(&ids);
    let ghost picked = AccountStore::spec_ids_filter(accounts.s(), spec_member_ids(user.accounts@));
    let ghost target = spec_login_accounts(*accounts, user.accounts@);
    let mut out: Vec<LoginAccount> = Vec::new();
    let mut m: usize = 0;
    while m < found.len()
        invariant
            m <= found@.len(),
            found@.len() == picked.len(),
            forall|i: int| 0 <= i < found@.len() ==> #[trigger] found@[i]@ == picked[i],
            out@.len() == m,
            forall|i: int| 0 <= i < m ==> #[trigger] out@[i]@ == target[i],
        decreases found@.len() - m,
    {
        let flag = manager_flag(&user.accounts, found[m].id);
        let entry = LoginAccount {
            id: found[m].id,
            name: found[m].name.clone(),
            created_at: found[m].created_at,
            updated_at: found[m].updated_at,
            is_manager: flag,
        };
        proof {
            assert(target[m as int] == LoginAccountModel {
                id: picked[m as int].id,
                name: picked[m as int].name,
                created_at: picked[m as int].created_at,
                updated_at: picked[m as int].updated_at,
                is_manager: spec_manager_flag(user.accounts@, picked[m as int].id),
            });
            assert(entry@ =~= target[m as int]);
        }
        out.push(entry);
        m = m + 1;
    }
    let r = LoginResponseDto { token, user, accounts: out };
    proof {
        assert(r@.accounts =~= target);
    }
    r
}

/// Log a caller in: verify the credentials, create a session, issue a
/// token, and assemble the response. Bad credentials are unauthorized;
/// the two verification failure modes are indistinguishable in the
/// response.
pub fn login(
    data: LoginDto,
    users: &UserStore,
    sessions: &mut SessionStore,
    accounts: &AccountStore,
    cfg: &Config,
    now: i64,
) -> (r: Result<LoginResponseDto, JsonError>)
    requires
        users.wf(),
        old(sessions).wf(),
        old(sessions).next_id < u64::MAX,
        cfg.wf(),
        0 <= now,
        now + cfg.session_duration * 1000 <= i64::MAX,
    ensures
        final(sessions).wf(),
        users.spec_login_user(data.email@, data.password@) is None ==> r is Err,
        users.spec_login_user(data.email@, data.password@) is Some ==> (r is Ok || r->Err_0@
            == JsonErrorModel::Internal("Error verifying login"@) || r->Err_0@
            == JsonErrorModel::Internal("Error creating token"@)),
        users.spec_login_user(data.email@, data.password@) is Some && bcrypt_valid_hash(
            users.spec_get_by_email(data.email@)->0.pwdhash,
        ) && jwt_signing_ok(
            old(sessions).next_id,
            (now / 1000 + cfg.jwt_duration) as u64,
            cfg.jwt_secret@,
        ) ==> r is Ok,
        r is Err ==> (r->Err_0@ == JsonErrorModel::Unauthorized("Invalid credentials"@)
            || r->Err_0@ == JsonErrorModel::Internal("Error verifying login"@) || r->Err_0@
            == JsonErrorModel::Internal("Error creating token"@)),
        r is Err && r->Err_0@ != JsonErrorModel::Internal("Error creating token"@) ==> final(sessions).s() == old(sessions).s() && final(sessions).next_id == old(sessions).next_id,
        r is Ok || r->Err_0@ == JsonErrorModel::Internal("Error creating token"@) ==> {
            let u = users.spec_login_user(data.email@, data.password@)->0;
            &&& users.spec_login_user(data.email@, data.password@) is Some
            &&& final(sessions).next_id == old(sessions).next_id + 1
            &&& final(sessions).s() == old(sessions).s().push(
                Session {
                    id: old(sessions).next_id,
                    user_id: u.id,
                    created_at: now,
                    expires_at: (now + cfg.session_duration * 1000) as i64,
                },
            )
        },
        r is Ok ==> {
            let u = users.spec_login_user(data.email@, data.password@)->0;
            &&& r->Ok_0@.user == spec_user_to_res(u)
            &&& r->Ok_0@.token == jwt_of(
                old(sessions).next_id,
                (now / 1000 + cfg.jwt_duration) as u64,
                cfg.jwt_secret@,
            )
            &&& r->Ok_0@.accounts == spec_login_accounts(*accounts, spec_user_to_res(u).accounts)
        },
{
    let user = match users.verify_login(&data) {
        Ok(Some(u)) => u,
        Ok(None) => {
            return Err(JsonError::Unauthorized(String::from_str("Invalid credentials")));
        },
        Err(e) => {
            proof {
                reveal_strlit("Error verifying login");
                reveal_strlit("Error creating token");
                assert("Error verifying login"@.len() == 21);
                assert("Error creating token"@.len() == 20);
                assert("Error verifying login"@ != "Error creating token"@);
            }
            return Err(e);
        },
    };
    let user_res = user_to_res(user);
    let session_id = sessions.create_session(user_res.id, now, cfg.session_duration);
    let exp = jwt_expiry(now, cfg.jwt_duration);
    let token = match create_jwt(session_id, exp, &cfg.jwt_secret) {
        Ok(t) => t,
        Err(e) => {
            return Err(e);
        },
    };
    Ok(get_login_response(accounts, token, user_res))
}

/// Return the caller's own session: the token they presented, their
/// public projection and their accounts.
pub fn get_session(
    jwt: Result<JWT, JsonError>,
    users: &UserStore,
    sessions: &SessionStore,
    accounts: &AccountStore,
    now: i64,
) -> (r: Result<LoginResponseDto, JsonError>)
    requires
        users.wf(),
        sessions.wf(),
    ensures
        match spec_get_jwt_session_and_user(*sessions, *users, jwt, now) {
            Err(e) => r is Err && r->Err_0@ == e,
            Ok((token, session, u)) => r is Ok && r->Ok_0@.token == token && r->Ok_0@.user
                == spec_user_to_res(u) && r->Ok_0@.accounts == spec_login_accounts(
                *accounts,
                spec_user_to_res(u).accounts,
            ),
        },
{
    let jwts = match get_jwt_session_and_user(sessions, users, jwt, now) {
        Ok(j) => j,
        Err(e) => {
            return Err(e);
        },
    };
    Ok(get_login_response(accounts, jwts.token, user_to_res(jwts.user)))
}

/// Renew the caller's session: push its expiry forward and issue a
/// fresh token for it.
pub fn update_session(
    jwt: Result<JWT, JsonError>,
    users: &UserStore,
    sessions: &mut SessionStore,
    accounts: &AccountStore,
    cfg: &Config,
    now: i64,
) -> (r: Result<LoginResponseDto, JsonError>)
    requires
        users.wf(),
        old(sessions).wf(),
        cfg.wf(),
        0 <= now,
        now + cfg.session_duration * 1000 <= i64::MAX,
    ensures
        final(sessions).wf(),
        final(sessions).next_id == old(sessions).next_id,
        match spec_get_jwt_session_and_user(*old(sessions), *users, jwt, now) {
            Err(e) => r is Err && r->Err_0@ == e && final(sessions).s() == old(sessions).s(),
            Ok((token, session, u)) => {
                let i = old(sessions).idx_of(session.id);
                let ns = Session {
                    expires_at: (now + cfg.session_duration * 1000) as i64,
                    ..session
                };
                &&& (session == ns ==> final(sessions).s() == old(sessions).s())
                &&& (session != ns ==> final(sessions).s() == old(sessions).s().update(i, ns))
                &&& (r is Err ==> r->Err_0@ == JsonErrorModel::Internal("Error creating token"@))
                &&& (r is Ok ==> r->Ok_0@.token == jwt_of(
                    session.id,
                    (now / 1000 + cfg.jwt_duration) as u64,
                    cfg.jwt_secret@,
                ) && r->Ok_0@.user == spec_user_to_res(u) && r->Ok_0@.accounts
                    == spec_login_accounts(*accounts, spec_user_to_res(u).accounts))
            },
        },
{
    let jwts = match get_jwt_session_and_user(sessions, users, jwt, now) {
        Ok(j) => j,
        Err(e) => {
            return Err(e);
        },
    };
    let session_id = jwts.session.id;
    let _outcome = sessions.update_session(session_id, now, cfg.session_duration);
    let exp = jwt_expiry(now, cfg.jwt_duration);
    let token = match create_jwt(session_id, exp, &cfg.jwt_secret) {
        Ok(t) => t,
        Err(e) => {
            return Err(e);
        },
    };
    Ok(get_login_response(accounts, token, user_to_res(jwts.user)))
}

/// Log the caller out: delete their session. Deleting an already-gone
/// session would not be an error; here resolution has just found it.
pub fn delete_session(jwt: Result<JWT, JsonError>, sessions: &mut SessionStore, now: i64) -> (r:
    Result<(), JsonError>)
    requires
        old(sessions).wf(),
    ensures
        final(sessions).wf(),
        final(sessions).next_id == old(sessions).next_id,
        match spec_get_jwt_session(*old(sessions), jwt, now) {
            Err(e) => r is Err && r->Err_0@ == e && final(sessions).s() == old(sessions).s(),
            Ok((token, session)) => r is Ok && final(sessions).s() == old(sessions).s().remove(
                old(sessions).idx_of(session.id),
            ) && !final(sessions).contains_id(session.id),
        },
{
    let jwts = match get_jwt_session(sessions, jwt, now) {
        Ok(j) => j,
        Err(e) => {
            return Err(e);
        },
    };
    let _outcome = sessions.delete_session(jwts.session.id);
    Ok(())
}

/// Change the caller's password: both passwords must be present, the
/// new one strong enough, and the old one must match the stored hash.
pub fn change_password(
    jwt: Result<JWT, JsonError>,
    change: ChangePasswordDto,
    users: &mut UserStore,
    sessions: &SessionStore,
    now: i64,
) -> (r: Result<(), JsonError>)
    requires
        old(users).wf(),
        sessions.wf(),
    ensures
        final(users).wf(),
        final(users).next_id == old(users).next_id,
        r is Err ==> final(users).s() == old(users).s(),
        match spec_get_jwt_session_and_user(*sessions, *old(users), jwt, now) {
            Err(e) => r is Err && r->Err_0@ == e,
            Ok((token, session, u)) => {
                &&& (change.old_password@.len() == 0 || change.new_password@.len() == 0) ==> r
                    is Err && r->Err_0@ == JsonErrorModel::BadRequest(
                    "Old password and new password cannot be empty"@,
                )
                &&& (change.old_password@.len() > 0 && change.new_password@.len() > 0
                    && change.new_password@.len() < 8) ==> r is Err && r->Err_0@
                    == JsonErrorModel::BadRequest("New password is not strong enough"@)
                &&& (r is Err && r->Err_0@ == JsonErrorModel::Unauthorized("Invalid password"@))
                    ==> (change.old_password@.len() > 0 && change.new_password@.len() > 0
                    && bcrypt_valid_hash(u.pwdhash) && !password_matches(
                    change.old_password@,
                    u.pwdhash,
                ))
                &&& (change.old_password@.len() > 0 && change.new_password@.len() > 0
                    && bcrypt_valid_hash(u.pwdhash) && !password_matches(
                    change.old_password@,
                    u.pwdhash,
                )) ==> r is Err && (r->Err_0@ == JsonErrorModel::BadRequest(
                    "New password is not strong enough"@,
                ) || r->Err_0@ == JsonErrorModel::Unauthorized("Invalid password"@))
                &&& (change.old_password@.len() > 0 && change.new_password@.len() > 0
                    && bcrypt_valid_hash(u.pwdhash) && password_matches(
                    change.old_password@,
                    u.pwdhash,
                )) ==> (r is Ok || r->Err_0@ == JsonErrorModel::BadRequest(
                    "New password is not strong enough"@,
                ) || r->Err_0@ == JsonErrorModel::Internal("Error changing password"@))
                &&& (r is Ok ==> password_matches(change.old_password@, u.pwdhash)
                    && bcrypt_valid_hash(u.pwdhash) && change.new_password@.len() >= 8 && {
                    let i = old(users).idx_of(u.id);
                    let nu = final(users).s()[i];
                    &&& final(users).s() == old(users).s().update(i, nu)
                    &&& password_matches(change.new_password@, nu.pwdhash)
                    &&& nu == crate::users::UserModel {
                        pwdhash: nu.pwdhash,
                        updated_at: now,
                        ..u
                    }
                })
            },
        },
{
    let jwts = match get_jwt_session_and_user(sessions, users, jwt, now) {
        Ok(j) => j,
        Err(e) => {
            return Err(e);
        },
    };
    if change.old_password.as_str().is_empty() || change.new_password.as_str().is_empty() {
        return Err(
            JsonError::BadRequest(
                String::from_str("Old password and new password cannot be empty"),
            ),
        );
    }
    if !valid_password(change.new_password.as_str()) {
        return Err(JsonError::BadRequest(String::from_str("New password is not strong enough")));
    }
    match verify_password(change.old_password.as_str(), jwts.user.pwdhash.as_str()) {
        Err(_) => Err(JsonError::Internal(String::from_str("Error verifying password"))),
        Ok(false) => Err(JsonError::Unauthorized(String::from_str("Invalid password"))),
        Ok(true) => {
            match users.change_password(jwts.user.id, &change.new_password, now) {
                Ok(_) => Ok(()),
                Err(e) => Err(e),
            }
        },
    }
}

} // verus!
