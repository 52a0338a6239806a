//! Test list endpoints: reads and writes on a list, its checks, their
//! ordering, and the creation of a report with one result per check.
//! Every handler resolves the caller and applies the authorization
//! resolver to the addressed list before touching anything.

use vstd::prelude::*;

use crate::authz::{decide_access, spec_decide, Access};
use crate::errors::{JsonError, JsonErrorModel};
use crate::guards::{get_jwt_session_and_user, spec_get_jwt_session_and_user};
use crate::jwt::JWT;
use crate::sessions::SessionStore;
use crate::strutil::strs;
use crate::testchecks::{
    spec_max_position, spec_reorder_count, spec_reordered, Testcheck, TestcheckDto, TestcheckModel,
    TestcheckStore,
};
use crate::testlists::{Testlist, TestlistDto, TestlistModel, TestlistStore};
use crate::testreports::{Testreport, TestreportDto, TestreportModel, TestreportStore};
use crate::testresults::{
    spec_check_snaps, spec_fresh_result, spec_snap_of_result, TestresultStore,
};
use crate::user_store::UserStore;
use crate::users::{User, UserModel};

verus! {

/// What the authorization resolver answers for a test list: the list on
/// a grant, the typed denial otherwise.
pub open spec fn spec_allowed_for_testlist(
    u: UserModel,
    store: TestlistStore,
    id: u64,
) -> Result<TestlistModel, JsonErrorModel> {
    let owner = match store.spec_get(id) {
        Some(t) => Some(t.account_id),
        None => None,
    };
    match spec_decide(u, owner) {
        Access::Granted => Ok(store.spec_get(id)->0),
        Access::Forbidden => Err(
            JsonErrorModel::Forbidden("You are not allowed to retrieve this testlist"@),
        ),
        Access::NotFound => Err(JsonErrorModel::NotFound("Testlist not found"@)),
    }
}

/// Fetch the addressed test list and apply the authorization resolver
/// to its owning account.
pub fn allowed_for_testlist(user: &User, store: &TestlistStore, id: u64) -> (r: Result<
    Testlist,
    JsonError,
>)
    requires
        store.wf(),
    ensures
        (match r {
            Ok(t) => Ok::<_, JsonErrorModel>(t@),
            Err(e) => Err(e@),
        }) == spec_allowed_for_testlist(user@, *store, id),
{
    let found = store.get_testlist_by_id(id);
    let owner = match &found {
        Some(t) => Some(t.account_id),
        None => None,
    };
    match decide_access(user, owner) {
        Access::Granted => match found {
            Some(t) => Ok(t),
            None => Err(JsonError::NotFound(String::from_str("Testlist not found"))),
        },
        Access::Forbidden => Err(
            JsonError::Forbidden(
                String::from_str("You are not allowed to retrieve this testlist"),
            ),
        ),
        Access::NotFound => Err(JsonError::NotFound(String::from_str("Testlist not found"))),
    }
}

/// List every test list; the admin guard on this listing is left to the
/// mounting layer, as the route carries none.
pub fn get_testlists(testlists: &TestlistStore) -> (r: Vec<Testlist>)
    ensures
        r@.len() == testlists.s().len(),
        forall|i: int| 0 <= i < r@.len() ==> #[trigger] r@[i]@ == testlists.s()[i],
{
    testlists.get_all()
}

/// Fetch one test list, applying the authorization resolver.
pub fn get_testlist(
    jwt: Result<JWT, JsonError>,
    id: u64,
    testlists: &TestlistStore,
    sessions: &SessionStore,
    users: &UserStore,
    now: i64,
) -> (r: Result<Testlist, JsonError>)
    requires
        testlists.wf(),
        sessions.wf(),
        users.wf(),
    ensures
        (match r {
            Ok(t) => Ok::<_, JsonErrorModel>(t@),
            Err(e) => Err(e@),
        }) == (match spec_get_jwt_session_and_user(*sessions, *users, jwt, now) {
            Err(e) => Err(e),
            Ok((token, session, u)) => spec_allowed_for_testlist(u, *testlists, id),
        }),
{
    let jwts = match get_jwt_session_and_user(sessions, users, jwt, now) {
        Ok(j) => j,
        Err(e) => {
            return Err(e);
        },
    };
    allowed_for_testlist(&jwts.user, testlists, id)
}

/// Update a test list's name and description. A write that modifies
/// nothing is reported as missing, even for a list that exists: only
/// the modified count is consulted.
pub fn update_testlist(
    jwt: Result<JWT, JsonError>,
    id: u64,
    data: TestlistDto,
    testlists: &mut TestlistStore,
    sessions: &SessionStore,
    users: &UserStore,
    now: i64,
) -> (r: Result<Testlist, JsonError>)
    requires
        old(testlists).wf(),
        sessions.wf(),
        users.wf(),
    ensures
        final(testlists).wf(),
        final(testlists).next_id == old(testlists).next_id,
        r is Err ==> final(testlists).s() == old(testlists).s(),
        match spec_get_jwt_session_and_user(*sessions, *users, jwt, now) {
            Err(e) => r is Err && r->Err_0@ == e,
            Ok((token, session, u)) => match spec_allowed_for_testlist(u, *old(testlists), id) {
                Err(e) => r is Err && r->Err_0@ == e,
                Ok(t) => {
                    let i = old(testlists).idx_of(id);
                    let nu = TestlistModel {
                        name: data.name@,
                        description: data.description@,
                        updated_at: now,
                        ..t
                    };
                    &&& (t == nu ==> r is Err && r->Err_0@ == JsonErrorModel::NotFound(
                        "Testlist not found"@,
                    ) && final(testlists).s() == old(testlists).s())
                    &&& (t != nu ==> r is Ok && r->Ok_0@ == nu && final(testlists).s() == old(
                        testlists,
                    ).s().update(i, nu))
                },
            },
        },
{
    let jwts = match get_jwt_session_and_user(sessions, users, jwt, now) {
        Ok(j) => j,
        Err(e) => {
            return Err(e);
        },
    };
    match allowed_for_testlist(&jwts.user, testlists, id) {
        Ok(_) => {},
        Err(e) => {
            return Err(e);
        },
    }
    let outcome = testlists.update_testlist(id, data, now);
    if outcome.modified_count == 0 {
        return Err(JsonError::NotFound(String::from_str("Testlist not found")));
    }
    proof {
        let i = old(testlists).idx_of(id);
        assert(testlists.s()[i].id == id);
        testlists.lemma_idx_of(i);
    }
    match testlists.get_testlist_by_id(id) {
        Some(t) => Ok(t),
        None => Err(JsonError::NotFound(String::from_str("Testlist not found"))),
    }
}

/// Delete a test list: its checks are removed first, then the list
/// itself, so no check outlives its list.
pub fn delete_testlist(
    jwt: Result<JWT, JsonError>,
    id: u64,
    testlists: &mut TestlistStore,
    testchecks: &mut TestcheckStore,
    sessions: &SessionStore,
    users: &UserStore,
    now: i64,
) -> (r: Result<Testlist, JsonError>)
    requires
        old(testlists).wf(),
        old(testchecks).wf(),
        sessions.wf(),
        users.wf(),
    ensures
        final(testlists).wf(),
        final(testchecks).wf(),
        r is Err ==> final(testlists).s() == old(testlists).s() && final(testchecks).s() == old(
            testchecks,
        ).s(),
        match spec_get_jwt_session_and_user(*sessions, *users, jwt, now) {
            Err(e) => r is Err && r->Err_0@ == e,
            Ok((token, session, u)) => match spec_allowed_for_testlist(u, *old(testlists), id) {
                Err(e) => r is Err && r->Err_0@ == e,
                Ok(t) => r is Ok && r->Ok_0@ == t && final(testlists).s() == old(
                    testlists,
                ).s().remove(old(testlists).idx_of(id)) && !final(testlists).contains_id(id)
                    && final(testchecks).s() == TestcheckStore::spec_without_testlist(
                    old(testchecks).s(),
                    id,
                ) && (forall|i: int|
                    0 <= i < final(testchecks).s().len() ==> #[trigger] final(testchecks).s()[
                        i
                    ].testlist_id != id),
            },
        },
{
    let jwts = match get_jwt_session_and_user(sessions, users, jwt, now) {
        Ok(j) => j,
        Err(e) => {
            return Err(e);
        },
    };
    let testlist = match allowed_for_testlist(&jwts.user, testlists, id) {
        Ok(t) => t,
        Err(e) => {
            return Err(e);
        },
    };
    let _removed_checks = testchecks.delete_testlist_testchecks(id);
    let deleted = testlists.delete_testlist(id);
    if deleted.deleted_count == 0 {
        return Err(JsonError::NotFound(String::from_str("Testlist not found")));
    }
    Ok(testlist)
}

/// List the checks of a test list, sorted by position.
pub fn get_testlist_testchecks(
    jwt: Result<JWT, JsonError>,
    testlist_id: u64,
    sessions: &SessionStore,
    users: &UserStore,
    testlists: &TestlistStore,
    testchecks: &TestcheckStore,
    now: i64,
) -> (r: Result<Vec<Testcheck>, JsonError>)
    requires
        testlists.wf(),
        sessions.wf(),
        users.wf(),
    ensures
        match spec_get_jwt_session_and_user(*sessions, *users, jwt, now) {
            Err(e) => r is Err && r->Err_0@ == e,
            Ok((token, session, u)) => match spec_allowed_for_testlist(
                u,
                *testlists,
                testlist_id,
            ) {
                Err(e) => r is Err && r->Err_0@ == e,
                Ok(t) => r is Ok && {
                    let out = Seq::new(r->Ok_0@.len(), |i: int| r->Ok_0@[i]@);
                    &&& out.to_multiset() == TestcheckStore::spec_testlist_testchecks(
                        testchecks.s(),
                        testlist_id,
                    ).to_multiset()
                    &&& forall|i: int, j: int|
                        0 <= i < j < out.len() ==> #[trigger] out[i].position
                            <= #[trigger] out[j].position
                },
            },
        },
{
    let jwts = match get_jwt_session_and_user(sessions, users, jwt, now) {
        Ok(j) => j,
        Err(e) => {
            return Err(e);
        },
    };
    match allowed_for_testlist(&jwts.user, testlists, testlist_id) {
        Ok(_) => {},
        Err(e) => {
            return Err(e);
        },
    }
    Ok(testchecks.get_testlist_testchecks(testlist_id))
}

/// Create a check under a test list. The check's ancestry is copied
/// from the authorized parent list, never from the input, so a caller
/// cannot forge a cross-tenant linkage; its position is one past the
/// list's largest.
pub fn create_testlist_testcheck(
    jwt: Result<JWT, JsonError>,
    testlist_id: u64,
    data: TestcheckDto,
    sessions: &SessionStore,
    users: &UserStore,
    testlists: &TestlistStore,
    testchecks: &mut TestcheckStore,
    now: i64,
) -> (r: Result<Testcheck, JsonError>)
    requires
        testlists.wf(),
        old(testchecks).wf(),
        old(testchecks).next_id < u64::MAX,
        spec_max_position(old(testchecks).s(), testlist_id) < u16::MAX,
        sessions.wf(),
        users.wf(),
    ensures
        final(testchecks).wf(),
        r is Err ==> final(testchecks).s() == old(testchecks).s() && final(testchecks).next_id
            == old(testchecks).next_id,
        match spec_get_jwt_session_and_user(*sessions, *users, jwt, now) {
            Err(e) => r is Err && r->Err_0@ == e,
            Ok((token, session, u)) => match spec_allowed_for_testlist(
                u,
                *testlists,
                testlist_id,
            ) {
                Err(e) => r is Err && r->Err_0@ == e,
                Ok(t) => r is Ok && {
                    let nu = TestcheckModel {
                        id: old(testchecks).next_id,
                        testlist_id: testlist_id,
                        project_id: t.project_id,
                        account_id: t.account_id,
                        name: data.name@,
                        description: data.description@,
                        expected: data.expected@,
                        tags: strs(data.tags),
                        position: (spec_max_position(old(testchecks).s(), testlist_id) + 1) as u16,
                        created_at: now,
                        updated_at: now,
                    };
                    &&& r->Ok_0@ == nu
                    &&& final(testchecks).s() == old(testchecks).s().push(nu)
                    &&& final(testchecks).next_id == old(testchecks).next_id + 1
                },
            },
        },
{
    let jwts = match get_jwt_session_and_user(sessions, users, jwt, now) {
        Ok(j) => j,
        Err(e) => {
            return Err(e);
        },
    };
    let testlist = match allowed_for_testlist(&jwts.user, testlists, testlist_id) {
        Ok(t) => t,
        Err(e) => {
            return Err(e);
        },
    };
    let id = testchecks.create_testcheck(
        testlist.account_id,
        testlist.project_id,
        testlist_id,
        data,
        now,
    );
    proof {
        let n = old(testchecks).s().len() as int;
        assert(testchecks.s()[n].id == id);
        testchecks.lemma_idx_of(n);
    }
    match testchecks.get_testcheck_by_id(id) {
        Some(c) => Ok(c),
        None => Err(JsonError::NotFound(String::from_str("Testlist not found"))),
    }
}

/// Reorder the checks of a test list: the payload lists check ids in
/// their new order; entries naming a check of another list are skipped
/// and excluded from the returned count.
pub fn update_testchecks_positions(
    jwt: Result<JWT, JsonError>,
    testlist_id: u64,
    data: Vec<u64>,
    sessions: &SessionStore,
    users: &UserStore,
    testlists: &TestlistStore,
    testchecks: &mut TestcheckStore,
    now: i64,
) -> (r: Result<i32, JsonError>)
    requires
        testlists.wf(),
        old(testchecks).wf(),
        data@.len() <= u16::MAX,
        sessions.wf(),
        users.wf(),
    ensures
        final(testchecks).wf(),
        final(testchecks).next_id == old(testchecks).next_id,
        r is Err ==> final(testchecks).s() == old(testchecks).s(),
        match spec_get_jwt_session_and_user(*sessions, *users, jwt, now) {
            Err(e) => r is Err && r->Err_0@ == e,
            Ok((token, session, u)) => match spec_allowed_for_testlist(
                u,
                *testlists,
                testlist_id,
            ) {
                Err(e) => r is Err && r->Err_0@ == e,
                Ok(t) => r is Ok && final(testchecks).s() == spec_reordered(
                    old(testchecks).s(),
                    testlist_id,
                    data@,
                ) && r->Ok_0 == spec_reorder_count(old(testchecks).s(), testlist_id, data@),
            },
        },
{
    let jwts = match get_jwt_session_and_user(sessions, users, jwt, now) {
        Ok(j) => j,
        Err(e) => {
            return Err(e);
        },
    };
    match allowed_for_testlist(&jwts.user, testlists, testlist_id) {
        Ok(_) => {},
        Err(e) => {
            return Err(e);
        },
    }
    Ok(testchecks.update_testlist_testchecks_positions(testlist_id, &data))
}

/// Create a report for a test list from an already-fetched sequence of
/// its checks: the report snapshots the list, and one fresh result is
/// created per check, in order, denormalizing that check's fields.
/// Returns the new report's id.
#[verifier::loop_isolation(false)]
pub fn create_testreport_for_checks(
    reports: &mut TestreportStore,
    results: &mut TestresultStore,
    account_id: u64,
    project_id: u64,
    testlist: &Testlist,
    checks: &Vec<Testcheck>,
    data: TestreportDto,
    now: i64,
) -> (report_id: u64)
    requires
        old(reports).wf(),
        old(reports).next_id < u64::MAX,
        old(results).wf(),
        old(results).next_id + checks@.len() <= u64::MAX,
    ensures
        final(reports).wf(),
        final(results).wf(),
        report_id == old(reports).next_id,
        final(reports).next_id == old(reports).next_id + 1,
        final(reports).s() == old(reports).s().push(
            TestreportModel {
                id: old(reports).next_id,
                account_id: account_id,
                project_id: project_id,
                testlist_id: testlist.id,
                name: testlist.name@,
                description: testlist.description@,
                execution: data.execution@,
                executors: None,
                created_at: now,
                updated_at: now,
            },
        ),
        final(results).next_id == old(results).next_id + checks@.len(),
        final(results).s().len() == old(results).s().len() + checks@.len(),
        forall|i: int|
            0 <= i < old(results).s().len() ==> #[trigger] final(results).s()[i] == old(
                results,
            ).s()[i],
        forall|i: int|
            0 <= i < checks@.len() ==> #[trigger] final(results).s()[old(results).s().len() + i]
                == spec_fresh_result(
                (old(results).next_id + i) as u64,
                old(reports).next_id,
                checks@[i]@,
                now,
            ),
{
    let report_id = reports.create_testreport(account_id, project_id, testlist, data, now);
    let mut k: usize = 0;
    while k < checks.len()
        invariant
            k <= checks@.len(),
            results.wf(),
            results.next_id == old(results).next_id + k,
            results.s().len() == old(results).s().len() + k,
            forall|i: int|
                0 <= i < old(results).s().len() ==> #[trigger] results.s()[i] == old(results).s()[
                    i
                ],
            forall|i: int|
                0 <= i < k ==> #[trigger] results.s()[old(results).s().len() + i]
                    == spec_fresh_result(
                    (old(results).next_id + i) as u64,
                    report_id,
                    checks@[i]@,
                    now,
                ),
        decreases checks@.len() - k,
    {
        let _ = results.create_testresult(report_id, &checks[k], now);
        k = k + 1;
    }
    report_id
}

/// Create a report for a test list: the report snapshots the list's
/// name and description, and exactly one fresh result is created per
/// check of the list, each denormalizing its check's fields and
/// referencing its check's id; distinct results reference distinct
/// checks since check ids are unique.
pub fn create_testreport(
    jwt: Result<JWT, JsonError>,
    testlist_id: u64,
    data: TestreportDto,
    sessions: &SessionStore,
    users: &UserStore,
    testlists: &TestlistStore,
    testchecks: &TestcheckStore,
    reports: &mut TestreportStore,
    results: &mut TestresultStore,
    now: i64,
) -> (r: Result<Testreport, JsonError>)
    requires
        testlists.wf(),
        testchecks.wf(),
        old(reports).wf(),
        old(reports).next_id < u64::MAX,
        old(results).wf(),
        old(results).next_id + testchecks.s().len() <= u64::MAX,
        sessions.wf(),
        users.wf(),
    ensures
        final(reports).wf(),
        final(results).wf(),
        r is Err ==> final(reports).s() == old(reports).s() && final(results).s() == old(
            results,
        ).s(),
        match spec_get_jwt_session_and_user(*sessions, *users, jwt, now) {
            Err(e) => r is Err && r->Err_0@ == e,
            Ok((token, session, u)) => match spec_allowed_for_testlist(
                u,
                *testlists,
                testlist_id,
            ) {
                Err(e) => r is Err && r->Err_0@ == e,
                Ok(t) => {
                    let children = TestcheckStore::spec_testlist_testchecks(
                        testchecks.s(),
                        testlist_id,
                    );
                    let n = children.len();
                    let base = old(results).s().len();
                    &&& r is Ok
                    &&& r->Ok_0@ == TestreportModel {
                        id: old(reports).next_id,
                        account_id: t.account_id,
                        project_id: t.project_id,
                        testlist_id: t.id,
                        name: t.name,
                        description: t.description,
                        execution: data.execution@,
                        executors: None,
                        created_at: now,
                        updated_at: now,
                    }
                    &&& final(reports).s() == old(reports).s().push(r->Ok_0@)
                    &&& final(results).s().len() == base + n
                    &&& (forall|i: int|
                        0 <= i < base ==> #[trigger] final(results).s()[i] == old(results).s()[i])
                    &&& (forall|i: int|
                        0 <= i < n ==> {
                            let rm = #[trigger] final(results).s()[base + i];
                            &&& rm.id == (old(results).next_id + i) as u64
                            &&& rm.testreport_id == old(reports).next_id
                            &&& rm.updated == false
                            &&& rm.pass == false && rm.flacky == false && rm.automated == false
                            &&& rm.created_at == now && rm.updated_at == now
                        })
                    &&& Seq::new(
                        n,
                        |i: int| spec_snap_of_result(final(results).s()[base + i]),
                    ).to_multiset() == spec_check_snaps(children).to_multiset()
                },
            },
        },
{
    broadcast use vstd::seq_lib::group_to_multiset_ensures;

    let jwts = match get_jwt_session_and_user(sessions, users, jwt, now) {
        Ok(j) => j,
        Err(e) => {
            return Err(e);
        },
    };
    let testlist = match allowed_for_testlist(&jwts.user, testlists, testlist_id) {
        Ok(t) => t,
        Err(e) => {
            return Err(e);
        },
    };
    let checks = testchecks.get_testlist_testchecks(testlist_id);
    proof {
        let children = TestcheckStore::spec_testlist_testchecks(testchecks.s(), testlist_id);
        let cs = Seq::new(checks@.len(), |i: int| checks@[i]@);
        assert(cs.to_multiset().len() == children.to_multiset().len());
        assert(cs.len() == children.len());
        TestcheckStore::lemma_children_len(testchecks.s(), testlist_id);
    }
    let report_id = create_testreport_for_checks(
        reports,
        results,
        testlist.account_id,
        testlist.project_id,
        &testlist,
        &checks,
        data,
        now,
    );
    proof {
        let n = old(reports).s().len() as int;
        assert(reports.s()[n].id == report_id);
        reports.lemma_idx_of(n);
    }
    let report = match reports.get_testreport_by_id(report_id) {
        Some(rep) => rep,
        None => {
            return Err(JsonError::NotFound(String::from_str("Testreport not found")));
        },
    };
    proof {
        let children = TestcheckStore::spec_testlist_testchecks(testchecks.s(), testlist_id);
        let cs = Seq::new(checks@.len(), |i: int| checks@[i]@);
        let n = children.len();
        let base = old(results).s().len() as int;
        let rs = results.s();
        let next0 = old(results).next_id;
        let rid = old(reports).next_id;
        crate::testresults::lemma_check_snaps_multiset(cs, children);
        assert(Seq::new(n, |i: int| spec_snap_of_result(rs[base + i])) =~= spec_check_snaps(cs));
    }
    Ok(report)
}

} // verus!
