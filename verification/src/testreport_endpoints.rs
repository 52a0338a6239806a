//! Test report endpoints: reads and writes on a report and the listing
//! of its results. Deleting a report removes its results first, so no
//! result outlives its report.

use vstd::prelude::*;

use crate::authz::{decide_access, spec_decide, Access};
use crate::errors::{JsonError, JsonErrorModel};
use crate::guards::{get_jwt_session_and_user, spec_get_jwt_session_and_user};
use crate::jwt::JWT;
use crate::sessions::SessionStore;
use crate::testreports::{Testreport, TestreportDto, TestreportModel, TestreportStore};
use crate::testresults::{Testresult, TestresultStore};
use crate::user_store::UserStore;
use crate::users::{User, UserModel};

verus! {

/// What the authorization resolver answers for a test report: the
/// report on a grant, the typed denial otherwise.
pub open spec fn spec_allowed_for_testreport(
    u: UserModel,
    store: TestreportStore,
    id: u64,
) -> Result<TestreportModel, JsonErrorModel> {
    let owner = match store.spec_get(id) {
        Some(t) => Some(t.account_id),
        None => None,
    };
    match spec_decide(u, owner) {
        Access::Granted => Ok(store.spec_get(id)->0),
        Access::Forbidden => Err(
            JsonErrorModel::Forbidden("You are not allowed to retrieve this testreport"@),
        ),
        Access::NotFound => Err(JsonErrorModel::NotFound("Testreport not found"@)),
    }
}

/// Fetch the addressed test report and apply the authorization resolver
/// to its owning account.
pub fn allowed_for_testreport(user: &User, store: &TestreportStore, id: u64) -> (r: Result<
    Testreport,
    JsonError,
>)
    requires
        store.wf(),
    ensures
        (match r {
            Ok(t) => Ok::<_, JsonErrorModel>(t@),
            Err(e) => Err(e@),
        }) == spec_allowed_for_testreport(user@, *store, id),
{
    let found = store.get_testreport_by_id(id);
    let owner = match &found {
        Some(t) => Some(t.account_id),
        None => None,
    };
    match decide_access(user, owner) {
        Access::Granted => match found {
            Some(t) => Ok(t),
            None => Err(JsonError::NotFound(String::from_str("Testreport not found"))),
        },
        Access::Forbidden => Err(
            JsonError::Forbidden(
                String::from_str("You are not allowed to retrieve this testreport"),
            ),
        ),
        Access::NotFound => Err(JsonError::NotFound(String::from_str("Testreport not found"))),
    }
}

/// List every test report; the admin guard on this listing is left to
/// the mounting layer, as the route carries none.
pub fn get_testreports(reports: &TestreportStore) -> (r: Vec<Testreport>)
    ensures
        r@.len() == reports.s().len(),
        forall|i: int| 0 <= i < r@.len() ==> #[trigger] r@[i]@ == reports.s()[i],
{
    reports.get_all()
}

/// Fetch one test report, applying the authorization resolver.
pub fn get_testreport(
    jwt: Result<JWT, JsonError>,
    id: u64,
    reports: &TestreportStore,
    sessions: &SessionStore,
    users: &UserStore,
    now: i64,
) -> (r: Result<Testreport, JsonError>)
    requires
        reports.wf(),
        sessions.wf(),
        users.wf(),
    ensures
        (match r {
            Ok(t) => Ok::<_, JsonErrorModel>(t@),
            Err(e) => Err(e@),
        }) == (match spec_get_jwt_session_and_user(*sessions, *users, jwt, now) {
            Err(e) => Err(e),
            Ok((token, session, u)) => spec_allowed_for_testreport(u, *reports, id),
        }),
{
    let jwts = match get_jwt_session_and_user(sessions, users, jwt, now) {
        Ok(j) => j,
        Err(e) => {
            return Err(e);
        },
    };
    allowed_for_testreport(&jwts.user, reports, id)
}

/// Update a report's name and description. A write that modifies
/// nothing is reported as missing, even for a report that exists: only
/// the modified count is consulted.
pub fn update_testreport(
    jwt: Result<JWT, JsonError>,
    id: u64,
    data: TestreportDto,
    reports: &mut TestreportStore,
    sessions: &SessionStore,
    users: &UserStore,
    now: i64,
) -> (r: Result<Testreport, JsonError>)
    requires
        old(reports).wf(),
        sessions.wf(),
        users.wf(),
    ensures
        final(reports).wf(),
        final(reports).next_id == old(reports).next_id,
        r is Err ==> final(reports).s() == old(reports).s(),
        match spec_get_jwt_session_and_user(*sessions, *users, jwt, now) {
            Err(e) => r is Err && r->Err_0@ == e,
            Ok((token, session, u)) => match spec_allowed_for_testreport(u, *old(reports), id) {
                Err(e) => r is Err && r->Err_0@ == e,
                Ok(t) => {
                    let i = old(reports).idx_of(id);
                    let nu = TestreportModel {
                        name: data.name@,
                        description: data.description@,
                        updated_at: now,
                        ..t
                    };
                    &&& (t == nu ==> r is Err && r->Err_0@ == JsonErrorModel::NotFound(
                        "Testreport not found"@,
                    ) && final(reports).s() == old(reports).s())
                    &&& (t != nu ==> r is Ok && r->Ok_0@ == nu && final(reports).s() == old(reports).s().update(i, nu))
                },
            },
        },
{
    let jwts = match get_jwt_session_and_user(sessions, users, jwt, now) {
        Ok(j) => j,
        Err(e) => {
            return Err(e);
        },
    };
    match allowed_for_testreport(&jwts.user, reports, id) {
        Ok(_) => {},
        Err(e) => {
            return Err(e);
        },
    }
    let outcome = reports.update_testreport(id, data, now);
    if outcome.modified_count == 0 {
        return Err(JsonError::NotFound(String::from_str("Testreport not found")));
    }
    proof {
        let i = old(reports).idx_of(id);
        assert(reports.s()[i].id == id);
        reports.lemma_idx_of(i);
    }
    match reports.get_testreport_by_id(id) {
        Some(t) => Ok(t),
        None => Err(JsonError::NotFound(String::from_str("Testreport not found"))),
    }
}

/// Delete a test report: its results are removed first, then the report
/// itself, so no result outlives its report.
pub fn delete_testreport(
    jwt: Result<JWT, JsonError>,
    id: u64,
    reports: &mut TestreportStore,
    results: &mut TestresultStore,
    sessions: &SessionStore,
    users: &UserStore,
    now: i64,
) -> (r: Result<Testreport, JsonError>)
    requires
        old(reports).wf(),
        old(results).wf(),
        sessions.wf(),
        users.wf(),
    ensures
        final(reports).wf(),
        final(results).wf(),
        r is Err ==> final(reports).s() == old(reports).s() && final(results).s() == old(results).s(),
        match spec_get_jwt_session_and_user(*sessions, *users, jwt, now) {
            Err(e) => r is Err && r->Err_0@ == e,
            Ok((token, session, u)) => match spec_allowed_for_testreport(u, *old(reports), id) {
                Err(e) => r is Err && r->Err_0@ == e,
                Ok(t) => r is Ok && r->Ok_0@ == t && final(reports).s() == old(reports).s().remove(old(reports).idx_of(id)) && !final(reports).contains_id(id) && final(results).s() == TestresultStore::spec_without_testreport(old(results).s(), id) && (forall|
                    i: int,
                |
                    0 <= i < final(results).s().len() ==> #[trigger] final(results).s()[
                        i
                    ].testreport_id != id),
            },
        },
{
    let jwts = match get_jwt_session_and_user(sessions, users, jwt, now) {
        Ok(j) => j,
        Err(e) => {
            return Err(e);
        },
    };
    let report = match allowed_for_testreport(&jwts.user, reports, id) {
        Ok(t) => t,
        Err(e) => {
            return Err(e);
        },
    };
    let _removed_results = results.delete_testreport_testresults(id);
    let deleted = reports.delete_testreport(id);
    if deleted.deleted_count == 0 {
        return Err(JsonError::NotFound(String::from_str("Testreport not found")));
    }
    Ok(report)
}

/// List the results of a report, applying the authorization resolver to
/// the report.
pub fn get_testreport_testresults(
    jwt: Result<JWT, JsonError>,
    testreport_id: u64,
    sessions: &SessionStore,
    users: &UserStore,
    reports: &TestreportStore,
    results: &TestresultStore,
    now: i64,
) -> (r: Result<Vec<Testresult>, JsonError>)
    requires
        reports.wf(),
        sessions.wf(),
        users.wf(),
    ensures
        match spec_get_jwt_session_and_user(*sessions, *users, jwt, now) {
            Err(e) => r is Err && r->Err_0@ == e,
            Ok((token, session, u)) => match spec_allowed_for_testreport(
                u,
                *reports,
                testreport_id,
            ) {
                Err(e) => r is Err && r->Err_0@ == e,
                Ok(t) => r is Ok && Seq::new(r->Ok_0@.len(), |i: int| r->Ok_0@[i]@)
                    == TestresultStore::spec_testreport_testresults(results.s(), testreport_id),
            },
        },
{
    let jwts = match get_jwt_session_and_user(sessions, users, jwt, now) {
        Ok(j) => j,
        Err(e) => {
            return Err(e);
        },
    };
    match allowed_for_testreport(&jwts.user, reports, testreport_id) {
        Ok(_) => {},
        Err(e) => {
            return Err(e);
        },
    }
    Ok(results.get_testreport_testresults(testreport_id))
}

} // verus!
