use test_boss::account_endpoints::{create_account, delete_account, update_account};
use test_boss::accounts::{AccountDto, AccountStore};
use test_boss::errors::JsonError;
use test_boss::jwt::{Claims, JWT};
use test_boss::projects::{Project, ProjectDto, ProjectStore};
use test_boss::sessions::SessionStore;
use test_boss::testcheck_endpoints::{delete_testcheck, get_testcheck, update_testcheck};
use test_boss::testchecks::{Testcheck, TestcheckDto, TestcheckStore};
use test_boss::testlist_endpoints::{
    create_testlist_testcheck, create_testreport, delete_testlist, get_testlist,
    get_testlist_testchecks, update_testchecks_positions, update_testlist,
};
use test_boss::testlists::{Testlist, TestlistDto, TestlistStore};
use test_boss::testreport_endpoints::{delete_testreport, get_testreport_testresults};
use test_boss::testreports::{TestreportDto, TestreportStore};
use test_boss::testresults::TestresultStore;
use test_boss::user_store::UserStore;
use test_boss::users::{User, UserAccount};

const NOW: i64 = 2_000_000;

fn member_user(id: u64, account_id: u64) -> User {
    User {
        id,
        email: format!("user{}@example.com", id),
        pwdhash: String::new(),
        firstname: "Grace".to_string(),
        lastname: "Hopper".to_string(),
        roles: None,
        accounts: Some(vec![UserAccount { account_id, is_manager: false }]),
        created_at: 0,
        updated_at: 0,
    }
}

fn testlist(id: u64, account_id: u64, project_id: u64) -> Testlist {
    Testlist {
        id,
        account_id,
        project_id,
        name: "Smoke".to_string(),
        description: "smoke tests".to_string(),
        created_at: 10,
        updated_at: 10,
    }
}

fn check(id: u64, testlist_id: u64, account_id: u64, position: u16, name: &str) -> Testcheck {
    Testcheck {
        id,
        testlist_id,
        project_id: 3,
        account_id,
        name: name.to_string(),
        description: format!("{} description", name),
        expected: "it works".to_string(),
        tags: vec!["fast".to_string()],
        position,
        created_at: 10,
        updated_at: 10,
    }
}

// A world where user 1 belongs to account 7, which owns testlist 20
// with checks 31, 32, 33 at positions 0, 1, 2, and a session 5 for the
// user.
fn world() -> (UserStore, SessionStore, TestlistStore, TestcheckStore) {
    let users = UserStore { items: vec![member_user(1, 7)], next_id: 2 };
    let sessions = SessionStore {
        items: vec![test_boss::sessions::Session {
            id: 5,
            user_id: 1,
            created_at: NOW,
            expires_at: NOW + 100_000,
        }],
        next_id: 6,
    };
    let testlists = TestlistStore { items: vec![testlist(20, 7, 3)], next_id: 21 };
    let testchecks = TestcheckStore {
        items: vec![
            check(31, 20, 7, 0, "first"),
            check(32, 20, 7, 1, "second"),
            check(33, 20, 7, 2, "third"),
        ],
        next_id: 34,
    };
    (users, sessions, testlists, testchecks)
}

fn jwt() -> Result<JWT, JsonError> {
    Ok(JWT { claims: Claims { session_id: 5, exp: 4_000_000_000 }, token: "tok".to_string() })
}

#[test]
fn creating_a_report_yields_one_result_per_check() {
    let (users, sessions, testlists, testchecks) = world();
    let mut reports = TestreportStore::new();
    let mut results = TestresultStore::new();
    let data = TestreportDto {
        name: "ignored".to_string(),
        description: "ignored".to_string(),
        execution: "manual".to_string(),
    };
    let report = create_testreport(
        jwt(),
        20,
        data,
        &sessions,
        &users,
        &testlists,
        &testchecks,
        &mut reports,
        &mut results,
        NOW,
    )
    .unwrap();
    // The report snapshots the list's name and description.
    assert_eq!(report.name, "Smoke");
    assert_eq!(report.description, "smoke tests");
    assert_eq!(report.execution, "manual");
    assert_eq!(report.testlist_id, 20);
    assert_eq!(report.account_id, 7);
    // Exactly one result per check, each referencing a distinct check.
    assert_eq!(results.items.len(), 3);
    let mut seen: Vec<u64> = results.items.iter().map(|r| r.testcheck_id).collect();
    seen.sort();
    assert_eq!(seen, vec![31, 32, 33]);
    for r in &results.items {
        assert_eq!(r.testreport_id, report.id);
        assert!(!r.updated && !r.pass && !r.flacky && !r.automated);
        let source = testchecks.items.iter().find(|c| c.id == r.testcheck_id).unwrap();
        assert_eq!(r.name, source.name);
        assert_eq!(r.description, source.description);
        assert_eq!(r.expected, source.expected);
        assert_eq!(r.tags, source.tags);
        assert_eq!(r.position, source.position);
        assert_eq!(r.account_id, source.account_id);
    }
    // The listing under the report returns all three results.
    let listed =
        get_testreport_testresults(jwt(), report.id, &sessions, &users, &reports, &results, NOW)
            .unwrap();
    assert_eq!(listed.len(), 3);
}

#[test]
fn reordering_checks_assigns_payload_positions() {
    let (users, sessions, testlists, mut testchecks) = world();
    // Payload [c2, c1, c3] over c1(0), c2(1), c3(2).
    let count = update_testchecks_positions(
        jwt(),
        20,
        vec![32, 31, 33],
        &sessions,
        &users,
        &testlists,
        &mut testchecks,
        NOW,
    )
    .unwrap();
    assert_eq!(count, 3);
    let pos_of = |id: u64| testchecks.items.iter().find(|c| c.id == id).unwrap().position;
    assert_eq!(pos_of(32), 0);
    assert_eq!(pos_of(31), 1);
    assert_eq!(pos_of(33), 2);
}

#[test]
fn reordering_skips_ids_of_another_list() {
    let (users, sessions, mut testlists, mut testchecks) = world();
    // A check under another list of the same account.
    testlists.items.push(testlist(25, 7, 3));
    testchecks.items.push(check(40, 25, 7, 0, "foreign"));
    testchecks.next_id = 41;
    let count = update_testchecks_positions(
        jwt(),
        20,
        vec![32, 40, 31],
        &sessions,
        &users,
        &testlists,
        &mut testchecks,
        NOW,
    )
    .unwrap();
    // The foreign id is not updated and not counted.
    assert_eq!(count, 2);
    let find = |id: u64| testchecks.items.iter().find(|c| c.id == id).unwrap();
    assert_eq!(find(32).position, 0);
    assert_eq!(find(40).position, 0);
    assert_eq!(find(40).testlist_id, 25);
    assert_eq!(find(31).position, 2);
}

#[test]
fn listing_checks_returns_them_sorted_by_position() {
    let (users, sessions, testlists, mut testchecks) = world();
    // Scramble the stored order.
    testchecks.items.reverse();
    let listed =
        get_testlist_testchecks(jwt(), 20, &sessions, &users, &testlists, &testchecks, NOW)
            .unwrap();
    let names: Vec<&str> = listed.iter().map(|c| c.name.as_str()).collect();
    assert_eq!(names, vec!["first", "second", "third"]);
}

#[test]
fn deleting_a_testlist_removes_its_checks_first() {
    let (users, sessions, mut testlists, mut testchecks) = world();
    // A check of another list survives.
    testlists.items.push(testlist(25, 7, 3));
    testchecks.items.push(check(40, 25, 7, 0, "other"));
    testchecks.next_id = 41;
    let deleted = delete_testlist(
        jwt(),
        20,
        &mut testlists,
        &mut testchecks,
        &sessions,
        &users,
        NOW,
    )
    .unwrap();
    assert_eq!(deleted.id, 20);
    // The list is gone.
    let err = get_testlist(jwt(), 20, &testlists, &sessions, &users, NOW).unwrap_err();
    assert_eq!(err, JsonError::NotFound("Testlist not found".to_string()));
    // Each of its checks is gone.
    for id in [31u64, 32, 33] {
        let err = get_testcheck(jwt(), id, &testchecks, &sessions, &users, NOW).unwrap_err();
        assert_eq!(err, JsonError::NotFound("Testcheck not found".to_string()));
    }
    // The other list's check is untouched.
    assert!(get_testcheck(jwt(), 40, &testchecks, &sessions, &users, NOW).is_ok());
}

#[test]
fn deleting_a_report_removes_its_results_first() {
    let (users, sessions, testlists, testchecks) = world();
    let mut reports = TestreportStore::new();
    let mut results = TestresultStore::new();
    let data = TestreportDto {
        name: String::new(),
        description: String::new(),
        execution: "manual".to_string(),
    };
    let report = create_testreport(
        jwt(),
        20,
        data,
        &sessions,
        &users,
        &testlists,
        &testchecks,
        &mut reports,
        &mut results,
        NOW,
    )
    .unwrap();
    assert_eq!(results.items.len(), 3);
    delete_testreport(jwt(), report.id, &mut reports, &mut results, &sessions, &users, NOW)
        .unwrap();
    assert!(reports.items.is_empty());
    assert!(results.items.is_empty());
}

#[test]
fn admin_bypass_applies_to_every_resource_family() {
    let (_, _, testlists, testchecks) = world();
    let admin = User {
        id: 1,
        email: "root@example.com".to_string(),
        pwdhash: String::new(),
        firstname: "Root".to_string(),
        lastname: "User".to_string(),
        roles: Some(vec!["admin".to_string()]),
        accounts: Some(vec![]),
        created_at: 0,
        updated_at: 0,
    };
    let users = UserStore { items: vec![admin], next_id: 2 };
    let sessions = SessionStore {
        items: vec![test_boss::sessions::Session {
            id: 5,
            user_id: 1,
            created_at: NOW,
            expires_at: NOW + 100_000,
        }],
        next_id: 6,
    };
    // The admin is a member of no account, yet reaches account 7's
    // test list and check.
    assert!(get_testlist(jwt(), 20, &testlists, &sessions, &users, NOW).is_ok());
    assert!(get_testcheck(jwt(), 31, &testchecks, &sessions, &users, NOW).is_ok());
    // And account 7's project and report.
    let mut projects = test_boss::projects::ProjectStore::new();
    let pid = projects.create(
        7,
        ProjectDto {
            name: "P".to_string(),
            version: "1".to_string(),
            description: String::new(),
            repository: String::new(),
        },
        NOW,
    );
    assert!(
        test_boss::project_endpoints::get_project(jwt(), pid, &projects, &sessions, &users, NOW)
            .is_ok()
    );
    let mut reports = TestreportStore::new();
    let rid = reports.create_testreport(7, pid, &testlists.items[0], TestreportDto {
        name: String::new(),
        description: String::new(),
        execution: "manual".to_string(),
    }, NOW);
    assert!(
        test_boss::testreport_endpoints::get_testreport(
            jwt(),
            rid,
            &reports,
            &sessions,
            &users,
            NOW,
        )
        .is_ok()
    );
}

#[test]
fn cross_tenant_callers_are_denied_resources() {
    let (_, _, testlists, testchecks) = world();
    let users = UserStore { items: vec![member_user(1, 8)], next_id: 2 };
    let sessions = SessionStore {
        items: vec![test_boss::sessions::Session {
            id: 5,
            user_id: 1,
            created_at: NOW,
            expires_at: NOW + 100_000,
        }],
        next_id: 6,
    };
    let err = get_testlist(jwt(), 20, &testlists, &sessions, &users, NOW).unwrap_err();
    assert_eq!(
        err,
        JsonError::Forbidden("You are not allowed to retrieve this testlist".to_string())
    );
    let err = get_testcheck(jwt(), 31, &testchecks, &sessions, &users, NOW).unwrap_err();
    assert_eq!(
        err,
        JsonError::Forbidden("You are not allowed to retrieve this testcheck".to_string())
    );
}

#[test]
fn creating_a_check_under_a_list_inherits_its_ancestry() {
    let (users, sessions, testlists, mut testchecks) = world();
    let data = TestcheckDto {
        name: "fourth".to_string(),
        description: "d".to_string(),
        expected: "e".to_string(),
        tags: vec![],
    };
    let created = create_testlist_testcheck(
        jwt(),
        20,
        data,
        &sessions,
        &users,
        &testlists,
        &mut testchecks,
        NOW,
    )
    .unwrap();
    // Ancestry comes from the parent list, position is one past the max.
    assert_eq!(created.testlist_id, 20);
    assert_eq!(created.account_id, 7);
    assert_eq!(created.project_id, 3);
    assert_eq!(created.position, 3);
    assert_eq!(created.created_at, NOW);
}

#[test]
fn updating_a_missing_resource_reports_not_found() {
    let (users, sessions, mut testlists, _) = world();
    let data = TestlistDto { name: "n".to_string(), description: "d".to_string() };
    let err =
        update_testlist(jwt(), 999, data, &mut testlists, &sessions, &users, NOW).unwrap_err();
    assert_eq!(err, JsonError::NotFound("Testlist not found".to_string()));
}

fn admin_world() -> (UserStore, SessionStore) {
    let admin = User {
        id: 1,
        email: "root@example.com".to_string(),
        pwdhash: String::new(),
        firstname: "Root".to_string(),
        lastname: "User".to_string(),
        roles: Some(vec!["admin".to_string()]),
        accounts: Some(vec![]),
        created_at: 0,
        updated_at: 0,
    };
    let users = UserStore { items: vec![admin], next_id: 2 };
    let sessions = SessionStore {
        items: vec![test_boss::sessions::Session {
            id: 5,
            user_id: 1,
            created_at: NOW,
            expires_at: NOW + 100_000,
        }],
        next_id: 6,
    };
    (users, sessions)
}

#[test]
fn a_zero_effect_update_is_indistinguishable_from_not_found() {
    // Only the modified count is consulted, so rewriting the identical
    // fields at the identical instant reports the resource as missing
    // even though it exists.
    let (users, sessions) = admin_world();
    let mut accounts = AccountStore::new();
    let created = create_account(
        jwt(),
        AccountDto { name: "Acme".to_string() },
        &sessions,
        &users,
        &mut accounts,
        NOW,
    )
    .unwrap();
    let same = AccountDto { name: "Acme".to_string() };
    let err =
        update_account(jwt(), created.id, same, &sessions, &users, &mut accounts, NOW).unwrap_err();
    assert_eq!(err, JsonError::NotFound("Account not found".to_string()));
    // The account still exists and is unchanged.
    assert_eq!(accounts.items.len(), 1);
    // A genuine change at a later instant succeeds.
    let renamed = update_account(
        jwt(),
        created.id,
        AccountDto { name: "Acme 2".to_string() },
        &sessions,
        &users,
        &mut accounts,
        NOW + 1,
    )
    .unwrap();
    assert_eq!(renamed.name, "Acme 2");
    assert_eq!(renamed.updated_at, NOW + 1);
}

#[test]
fn account_delete_returns_the_deleted_record() {
    let (users, sessions) = admin_world();
    let mut accounts = AccountStore::new();
    let created = create_account(
        jwt(),
        AccountDto { name: "Gone".to_string() },
        &sessions,
        &users,
        &mut accounts,
        NOW,
    )
    .unwrap();
    let deleted =
        delete_account(jwt(), created.id, &sessions, &users, &mut accounts, NOW).unwrap();
    assert_eq!(deleted.name, "Gone");
    assert!(accounts.items.is_empty());
    let err =
        delete_account(jwt(), created.id, &sessions, &users, &mut accounts, NOW).unwrap_err();
    assert_eq!(err, JsonError::NotFound("Account not found".to_string()));
}

#[test]
fn updating_a_check_rewrites_its_fields_and_stamp() {
    let (users, sessions, _, mut testchecks) = world();
    let data = TestcheckDto {
        name: "renamed".to_string(),
        description: "new description".to_string(),
        expected: "new expectation".to_string(),
        tags: vec!["slow".to_string()],
    };
    let updated =
        update_testcheck(jwt(), 31, data, &mut testchecks, &sessions, &users, NOW).unwrap();
    assert_eq!(updated.name, "renamed");
    assert_eq!(updated.tags, vec!["slow".to_string()]);
    assert_eq!(updated.updated_at, NOW);
    assert_eq!(updated.position, 0);
    assert_eq!(updated.created_at, 10);
}

#[test]
fn deleting_a_check_removes_only_that_check() {
    let (users, sessions, _, mut testchecks) = world();
    let deleted = delete_testcheck(jwt(), 32, &mut testchecks, &sessions, &users, NOW).unwrap();
    assert_eq!(deleted.id, 32);
    assert_eq!(testchecks.items.len(), 2);
    assert!(testchecks.items.iter().all(|c| c.id != 32));
}

#[test]
fn project_crud_keeps_the_owning_account() {
    let (users, sessions, _, _) = world();
    let accounts = AccountStore {
        items: vec![test_boss::accounts::Account {
            id: 7,
            name: "Acme".to_string(),
            created_at: 0,
            updated_at: 0,
        }],
        next_id: 8,
    };
    let mut projects = ProjectStore::new();
    let dto = ProjectDto {
        name: "Proj".to_string(),
        version: "1.0".to_string(),
        description: "d".to_string(),
        repository: "https://example.com/r.git".to_string(),
    };
    let created = test_boss::project_endpoints::create_account_project(
        jwt(),
        7,
        dto,
        &sessions,
        &users,
        &accounts,
        &mut projects,
        NOW,
    )
    .unwrap();
    assert_eq!(created.account_id, 7);
    let listed = projects.get_account_projects(7);
    assert_eq!(listed.len(), 1);
    assert_eq!(listed[0], created);
    assert!(projects.get_account_projects(8).is_empty());
    let all: Vec<Project> = projects.get_all();
    assert_eq!(all.len(), 1);
}
