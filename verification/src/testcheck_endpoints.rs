//! Test check endpoints: reads and writes on a single check. Every
//! handler resolves the caller and applies the authorization resolver
//! to the addressed check before touching anything.

use vstd::prelude::*;

use crate::authz::{decide_access, spec_decide, Access};
use crate::errors::{JsonError, JsonErrorModel};
use crate::guards::{get_jwt_session_and_user, spec_get_jwt_session_and_user};
use crate::jwt::JWT;
use crate::sessions::SessionStore;
use crate::strutil::strs;
use crate::testchecks::{Testcheck, TestcheckDto, TestcheckModel, TestcheckStore};
use crate::user_store::UserStore;
use crate::users::{User, UserModel};

verus! {

/// What the authorization resolver answers for a test check: the check
/// on a grant, the typed denial otherwise.
pub open spec fn spec_allowed_for_testcheck(
    u: UserModel,
    store: TestcheckStore,
    id: u64,
) -> Result<TestcheckModel, JsonErrorModel> {
    let owner = match store.spec_get(id) {
        Some(t) => Some(t.account_id),
        None => None,
    };
    match spec_decide(u, owner) {
        Access::Granted => Ok(store.spec_get(id)->0),
        Access::Forbidden => Err(
            JsonErrorModel::Forbidden("You are not allowed to retrieve this testcheck"@),
        ),
        Access::NotFound => Err(JsonErrorModel::NotFound("Testcheck not found"@)),
    }
}

/// Fetch the addressed test check and apply the authorization resolver
/// to its owning account.
pub fn allowed_for_testcheck(user: &User, store: &TestcheckStore, id: u64) -> (r: Result<
    Testcheck,
    JsonError,
>)
    requires
        store.wf(),
    ensures
        (match r {
            Ok(t) => Ok::<_, JsonErrorModel>(t@),
            Err(e) => Err(e@),
        }) == spec_allowed_for_testcheck(user@, *store, id),
{
    let found = store.get_testcheck_by_id(id);
    let owner = match &found {
        Some(t) => Some(t.account_id),
        None => None,
    };
    match decide_access(user, owner) {
        Access::Granted => match found {
            Some(t) => Ok(t),
            None => Err(JsonError::NotFound(String::from_str("Testcheck not found"))),
        },
        Access::Forbidden => Err(
            JsonError::Forbidden(
                String::from_str("You are not allowed to retrieve this testcheck"),
            ),
        ),
        Access::NotFound => Err(JsonError::NotFound(String::from_str("Testcheck not found"))),
    }
}

/// List every test check; the admin guard on this listing is left to
/// the mounting layer, as the route carries none.
pub fn get_testchecks(testchecks: &TestcheckStore) -> (r: Vec<Testcheck>)
    ensures
        r@.len() == testchecks.s().len(),
        forall|i: int| 0 <= i < r@.len() ==> #[trigger] r@[i]@ == testchecks.s()[i],
{
    testchecks.get_all()
}

/// Fetch one test check, applying the authorization resolver.
pub fn get_testcheck(
    jwt: Result<JWT, JsonError>,
    id: u64,
    testchecks: &TestcheckStore,
    sessions: &SessionStore,
    users: &UserStore,
    now: i64,
) -> (r: Result<Testcheck, JsonError>)
    requires
        testchecks.wf(),
        sessions.wf(),
        users.wf(),
    ensures
        (match r {
            Ok(t) => Ok::<_, JsonErrorModel>(t@),
            Err(e) => Err(e@),
        }) == (match spec_get_jwt_session_and_user(*sessions, *users, jwt, now) {
            Err(e) => Err(e),
            Ok((token, session, u)) => spec_allowed_for_testcheck(u, *testchecks, id),
        }),
{
    let jwts = match get_jwt_session_and_user(sessions, users, jwt, now) {
        Ok(j) => j,
        Err(e) => {
            return Err(e);
        },
    };
    allowed_for_testcheck(&jwts.user, testchecks, id)
}

/// Update a test check's describing fields. A write that modifies
/// nothing is reported as missing, even for a check that exists: only
/// the modified count is consulted.
pub fn update_testcheck(
    jwt: Result<JWT, JsonError>,
    id: u64,
    data: TestcheckDto,
    testchecks: &mut TestcheckStore,
    sessions: &SessionStore,
    users: &UserStore,
    now: i64,
) -> (r: Result<Testcheck, JsonError>)
    requires
        old(testchecks).wf(),
        sessions.wf(),
        users.wf(),
    ensures
        final(testchecks).wf(),
        final(testchecks).next_id == old(testchecks).next_id,
        r is Err ==> final(testchecks).s() == old(testchecks).s(),
        match spec_get_jwt_session_and_user(*sessions, *users, jwt, now) {
            Err(e) => r is Err && r->Err_0@ == e,
            Ok((token, session, u)) => match spec_allowed_for_testcheck(
                u,
                *old(testchecks),
                id,
            ) {
                Err(e) => r is Err && r->Err_0@ == e,
                Ok(t) => {
                    let i = old(testchecks).idx_of(id);
                    let nu = TestcheckModel {
                        name: data.name@,
                        description: data.description@,
                        expected: data.expected@,
                        tags: strs(data.tags),
                        updated_at: now,
                        ..t
                    };
                    &&& (t == nu ==> r is Err && r->Err_0@ == JsonErrorModel::NotFound(
                        "Testcheck not found"@,
                    ) && final(testchecks).s() == old(testchecks).s())
                    &&& (t != nu ==> r is Ok && r->Ok_0@ == nu && final(testchecks).s() == old(testchecks).s().update(i, nu))
                },
            },
        },
{
    let jwts = match get_jwt_session_and_user(sessions, users, jwt, now) {
        Ok(j) => j,
        Err(e) => {
            return Err(e);
        },
    };
    match allowed_for_testcheck(&jwts.user, testchecks, id) {
        Ok(_) => {},
        Err(e) => {
            return Err(e);
        },
    }
    let outcome = testchecks.update_testcheck(id, data, now);
    if outcome.modified_count == 0 {
        return Err(JsonError::NotFound(String::from_str("Testcheck not found")));
    }
    proof {
        let i = old(testchecks).idx_of(id);
        assert(testchecks.s()[i].id == id);
        testchecks.lemma_idx_of(i);
    }
    match testchecks.get_testcheck_by_id(id) {
        Some(t) => Ok(t),
        None => Err(JsonError::NotFound(String::from_str("Testcheck not found"))),
    }
}

/// Delete a test check.
pub fn delete_testcheck(
    jwt: Result<JWT, JsonError>,
    id: u64,
    testchecks: &mut TestcheckStore,
    sessions: &SessionStore,
    users: &UserStore,
    now: i64,
) -> (r: Result<Testcheck, JsonError>)
    requires
        old(testchecks).wf(),
        sessions.wf(),
        users.wf(),
    ensures
        final(testchecks).wf(),
        r is Err ==> final(testchecks).s() == old(testchecks).s(),
        match spec_get_jwt_session_and_user(*sessions, *users, jwt, now) {
            Err(e) => r is Err && r->Err_0@ == e,
            Ok((token, session, u)) => match spec_allowed_for_testcheck(
                u,
                *old(testchecks),
                id,
            ) {
                Err(e) => r is Err && r->Err_0@ == e,
                Ok(t) => r is Ok && r->Ok_0@ == t && final(testchecks).s() == old(testchecks).s().remove(old(testchecks).idx_of(id)) && !final(testchecks).contains_id(id),
            },
        },
{
    let jwts = match get_jwt_session_and_user(sessions, users, jwt, now) {
        Ok(j) => j,
        Err(e) => {
            return Err(e);
        },
    };
    let testcheck = match allowed_for_testcheck(&jwts.user, testchecks, id) {
        Ok(t) => t,
        Err(e) => {
            return Err(e);
        },
    };
    let deleted = testchecks.delete_testcheck(id);
    if deleted.deleted_count == 0 {
        return Err(JsonError::NotFound(String::from_str("Testcheck not found")));
    }
    Ok(testcheck)
}

} // verus!
