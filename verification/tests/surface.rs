use test_boss::account_endpoints::get_accounts;
use test_boss::accounts::{Account, AccountStore};
use test_boss::errors::JsonError;
use test_boss::jwt::{Claims, JWT};
use test_boss::roles::{is_admin, Role};
use test_boss::routes::{
    catch_bad_request, catch_forbidden, catch_internal_error, catch_not_found,
    catch_unauthorized, catch_unprocessble_entity, get_accounts_routes, get_projects_routes,
    get_sessions_routes, get_testchecks_routes, get_testlists_routes, get_testreports_routes,
    get_users_routes, Method,
};
use test_boss::sessions::{Session, SessionStore};
use test_boss::user_endpoints::{create_user, delete_user, get_user, get_users, update_user};
use test_boss::user_store::UserStore;
use test_boss::users::{User, UserAccount, UserDetailsDto, UserDto};
use test_boss::validation::{valid_email, valid_password};

const NOW: i64 = 3_000_000;

fn admin_user(id: u64) -> User {
    User {
        id,
        email: format!("admin{}@example.com", id),
        pwdhash: String::new(),
        firstname: "Root".to_string(),
        lastname: "User".to_string(),
        roles: Some(vec!["admin".to_string()]),
        accounts: Some(vec![]),
        created_at: 0,
        updated_at: 0,
    }
}

fn plain_user(id: u64) -> User {
    User {
        id,
        email: format!("user{}@example.com", id),
        pwdhash: String::new(),
        firstname: "Plain".to_string(),
        lastname: "User".to_string(),
        roles: None,
        accounts: Some(vec![UserAccount { account_id: 7, is_manager: false }]),
        created_at: 0,
        updated_at: 0,
    }
}

fn session_for(user_id: u64, session_id: u64) -> Session {
    Session { id: session_id, user_id, created_at: NOW, expires_at: NOW + 100_000 }
}

fn jwt(session_id: u64) -> Result<JWT, JsonError> {
    Ok(JWT { claims: Claims { session_id, exp: 4_000_000_000 }, token: "tok".to_string() })
}

#[test]
fn email_validation_follows_address_syntax() {
    assert!(valid_email("someone@example.com"));
    assert!(!valid_email("not an address"));
    assert!(!valid_email(""));
}

#[test]
fn password_validation_requires_length_and_strength() {
    // Too short, whatever its strength.
    assert!(!valid_password("aB3$xyz"));
    // Long enough but guessable.
    assert!(!valid_password("password"));
    // Long and strong.
    assert!(valid_password("Tr0ub4dour&3horse"));
}

#[test]
fn role_tags_and_admin_detection() {
    assert_eq!(Role::Admin.to_string(), "admin");
    assert_eq!(Role::AccountManager.to_string(), "account_manager");
    assert!(is_admin(&admin_user(1)));
    assert!(!is_admin(&plain_user(2)));
    let mut tagged = plain_user(3);
    tagged.roles = Some(vec!["account_manager".to_string(), "admin".to_string()]);
    assert!(is_admin(&tagged));
}

#[test]
fn error_statuses_and_messages() {
    let e = JsonError::Unauthorized("Invalid credentials".to_string());
    assert_eq!(e.get_http_status(), 401);
    assert_eq!(e.message_text(), "Error Unauthorized: Invalid credentials.");
    assert_eq!(JsonError::Internal(String::new()).get_http_status(), 500);
    assert_eq!(JsonError::NotFound(String::new()).get_http_status(), 404);
    assert_eq!(JsonError::BadRequest(String::new()).get_http_status(), 400);
    assert_eq!(JsonError::Forbidden(String::new()).get_http_status(), 403);
    let body = e.to_error_response();
    assert_eq!(body.message, "Error Unauthorized: Invalid credentials.");
}

#[test]
fn catchers_render_the_original_bodies() {
    let uri = "/api/v1/users".to_string();
    assert_eq!(
        catch_bad_request(&uri),
        JsonError::BadRequest("Bad request: /api/v1/users".to_string())
    );
    assert_eq!(
        catch_unauthorized(&uri),
        JsonError::BadRequest("Unauthorized: /api/v1/users".to_string())
    );
    assert_eq!(
        catch_forbidden(&uri),
        JsonError::BadRequest("Forbidden: /api/v1/users".to_string())
    );
    assert_eq!(
        catch_unprocessble_entity(&uri),
        JsonError::BadRequest("Bad request: /api/v1/users".to_string())
    );
    assert_eq!(
        catch_not_found(&uri),
        JsonError::NotFound("Resource /api/v1/users not found".to_string())
    );
    assert_eq!(
        catch_internal_error(&uri),
        JsonError::Internal("Internal error: /api/v1/users".to_string())
    );
}

#[test]
fn route_tables_list_the_mounted_surface() {
    assert_eq!(get_sessions_routes().len(), 5);
    assert_eq!(get_users_routes().len(), 5);
    assert_eq!(get_accounts_routes().len(), 7);
    assert_eq!(get_projects_routes().len(), 7);
    assert_eq!(get_testlists_routes().len(), 8);
    assert_eq!(get_testchecks_routes().len(), 4);
    assert_eq!(get_testreports_routes().len(), 5);
    let sessions = get_sessions_routes();
    assert_eq!(sessions[0].method, Method::Post);
    assert_eq!(sessions[0].path, "/login");
    assert_eq!(sessions[0].handler, "login");
    let testlists = get_testlists_routes();
    assert_eq!(testlists[6].method, Method::Put);
    assert_eq!(testlists[6].path, "/<testlist_id>/testchecks");
    assert_eq!(testlists[6].handler, "update_testchecks_positions");
}

#[test]
fn user_listing_is_admin_only_and_paged() {
    let mut items = vec![admin_user(1)];
    for k in 2..=15u64 {
        items.push(plain_user(k));
    }
    let users = UserStore { items, next_id: 16 };
    let sessions = SessionStore {
        items: vec![session_for(1, 5), session_for(2, 6)],
        next_id: 7,
    };
    let page = get_users(jwt(5), &sessions, &users, NOW).unwrap();
    assert_eq!(page.total, 15);
    assert_eq!(page.list.len(), 10);
    assert_eq!(page.list[0].id, 1);
    // The projection carries no password hash field at all; roles and
    // accounts are flattened.
    assert_eq!(page.list[1].roles, Vec::<String>::new());
    let err = get_users(jwt(6), &sessions, &users, NOW).unwrap_err();
    assert_eq!(
        err,
        JsonError::Forbidden("You are not allowed to retrieve all users".to_string())
    );
}

#[test]
fn user_store_listing_sorts_by_allow_listed_fields() {
    let mut items = Vec::new();
    for (id, mail) in [(1u64, "cc@example.com"), (2, "aa@example.com"), (3, "bb@example.com")] {
        let mut u = plain_user(id);
        u.email = mail.to_string();
        items.push(u);
    }
    let users = UserStore { items, next_id: 4 };
    let by = "email".to_string();
    let asc = "asc".to_string();
    let page = users.get_users(0, 10, &by, &asc);
    let mails: Vec<&str> = page.list.iter().map(|u| u.email.as_str()).collect();
    assert_eq!(mails, vec!["aa@example.com", "bb@example.com", "cc@example.com"]);
    let desc = "desc".to_string();
    let page = users.get_users(0, 2, &by, &desc);
    let mails: Vec<&str> = page.list.iter().map(|u| u.email.as_str()).collect();
    assert_eq!(mails, vec!["cc@example.com", "bb@example.com"]);
    assert_eq!(page.total, 3);
    // A field outside the allow-list leaves the store order in place.
    let off = "pwdhash".to_string();
    let page = users.get_users(0, 10, &off, &asc);
    let mails: Vec<&str> = page.list.iter().map(|u| u.email.as_str()).collect();
    assert_eq!(mails, vec!["cc@example.com", "aa@example.com", "bb@example.com"]);
}

#[test]
fn single_user_fetch_is_self_or_admin() {
    let users = UserStore { items: vec![admin_user(1), plain_user(2), plain_user(3)], next_id: 4 };
    let sessions = SessionStore {
        items: vec![session_for(1, 5), session_for(2, 6)],
        next_id: 7,
    };
    // Self.
    let me = get_user(2, jwt(6), &sessions, &users, NOW).unwrap();
    assert_eq!(me.id, 2);
    // Somebody else, not admin.
    let err = get_user(3, jwt(6), &sessions, &users, NOW).unwrap_err();
    assert_eq!(err, JsonError::Forbidden("Forbidden".to_string()));
    // Somebody else, admin.
    let other = get_user(3, jwt(5), &sessions, &users, NOW).unwrap();
    assert_eq!(other.id, 3);
    // Missing id, admin.
    let err = get_user(99, jwt(5), &sessions, &users, NOW).unwrap_err();
    assert_eq!(err, JsonError::NotFound("User not found".to_string()));
}

#[test]
fn user_creation_validates_and_hashes() {
    let mut users = UserStore { items: vec![admin_user(1)], next_id: 2 };
    let sessions = SessionStore { items: vec![session_for(1, 5)], next_id: 6 };
    let dto = |email: &str, password: &str| UserDto {
        email: email.to_string(),
        password: password.to_string(),
        firstname: "New".to_string(),
        lastname: "User".to_string(),
        roles: vec![],
        accounts: vec![UserAccount { account_id: 9, is_manager: true }],
    };
    let err = create_user(dto("broken", "Tr0ub4dour&3horse"), jwt(5), &sessions, &mut users, NOW)
        .unwrap_err();
    assert_eq!(err, JsonError::BadRequest("Invalid email address".to_string()));
    let err = create_user(dto("n@example.com", "password"), jwt(5), &sessions, &mut users, NOW)
        .unwrap_err();
    assert_eq!(err, JsonError::BadRequest("Password is not strong enough".to_string()));
    let created =
        create_user(dto("n@example.com", "Tr0ub4dour&3horse"), jwt(5), &sessions, &mut users, NOW)
            .unwrap();
    assert_eq!(created.email, "n@example.com");
    // The membership list starts empty whatever the input carried.
    assert_eq!(created.accounts, vec![]);
    // The stored record holds a hash that verifies, not the password.
    let stored = users.items.iter().find(|u| u.email == "n@example.com").unwrap();
    assert_ne!(stored.pwdhash, "Tr0ub4dour&3horse");
    assert!(bcrypt::verify("Tr0ub4dour&3horse", &stored.pwdhash).unwrap());
    // The e-mail address is now taken.
    let err =
        create_user(dto("n@example.com", "Tr0ub4dour&3horse"), jwt(5), &sessions, &mut users, NOW)
            .unwrap_err();
    assert_eq!(err, JsonError::Internal("Error creating user".to_string()));
}

#[test]
fn user_update_and_delete() {
    let mut users = UserStore { items: vec![admin_user(1), plain_user(2)], next_id: 3 };
    let sessions = SessionStore { items: vec![session_for(1, 5)], next_id: 6 };
    let dto = UserDetailsDto { firstname: "Renamed".to_string(), lastname: "Person".to_string() };
    let updated = update_user(2, dto, &mut users, NOW).unwrap();
    assert_eq!(updated.firstname, "Renamed");
    let gone = delete_user(2, jwt(5), &sessions, &mut users, NOW).unwrap();
    assert_eq!(gone.id, 2);
    assert_eq!(users.items.len(), 1);
    let err = delete_user(2, jwt(5), &sessions, &mut users, NOW).unwrap_err();
    assert_eq!(err, JsonError::NotFound("User not found".to_string()));
}

#[test]
fn account_listing_is_admin_only_and_paged() {
    let users = UserStore { items: vec![admin_user(1)], next_id: 2 };
    let sessions = SessionStore { items: vec![session_for(1, 5)], next_id: 6 };
    let mut items = Vec::new();
    for k in 1..=5u64 {
        items.push(Account {
            id: k,
            name: format!("acc{}", k),
            created_at: 0,
            updated_at: 0,
        });
    }
    let accounts = AccountStore { items, next_id: 6 };
    let by = "created_at".to_string();
    let dir = "asc".to_string();
    let page = get_accounts(jwt(5), 1, 2, &by, &dir, &sessions, &users, &accounts, NOW).unwrap();
    assert_eq!(page.total, 5);
    assert_eq!(page.list.len(), 2);
    assert_eq!(page.list[0].name, "acc3");
    assert_eq!(page.list[1].name, "acc4");
    let last = get_accounts(jwt(5), 2, 2, &by, &dir, &sessions, &users, &accounts, NOW).unwrap();
    assert_eq!(last.list.len(), 1);
    let beyond = get_accounts(jwt(5), 9, 2, &by, &dir, &sessions, &users, &accounts, NOW).unwrap();
    assert!(beyond.list.is_empty());
    // The allow-listed name sort reorders before the page is cut.
    let by_name = "name".to_string();
    let desc = "desc".to_string();
    let sorted = get_accounts(jwt(5), 0, 5, &by_name, &desc, &sessions, &users, &accounts, NOW)
        .unwrap();
    let names: Vec<&str> = sorted.list.iter().map(|a| a.name.as_str()).collect();
    assert_eq!(names, vec!["acc5", "acc4", "acc3", "acc2", "acc1"]);
}

#[test]
fn account_projects_follow_the_resolver() {
    let users = UserStore { items: vec![admin_user(1), plain_user(2)], next_id: 3 };
    let sessions = SessionStore {
        items: vec![session_for(1, 5), session_for(2, 6)],
        next_id: 7,
    };
    let accounts = AccountStore {
        items: vec![Account { id: 7, name: "Acme".to_string(), created_at: 0, updated_at: 0 }],
        next_id: 8,
    };
    let projects = test_boss::projects::ProjectStore::new();
    // The member of account 7 can list.
    let listed = test_boss::project_endpoints::get_account_projects(
        jwt(6),
        7,
        &sessions,
        &users,
        &accounts,
        &projects,
        NOW,
    )
    .unwrap();
    assert!(listed.is_empty());
    // The admin role bypasses the membership check here as everywhere.
    let listed = test_boss::project_endpoints::get_account_projects(
        jwt(5),
        7,
        &sessions,
        &users,
        &accounts,
        &projects,
        NOW,
    )
    .unwrap();
    assert!(listed.is_empty());
    // A member asking for a missing account hears that it is missing.
    let err = test_boss::project_endpoints::get_account_projects(
        jwt(6),
        99,
        &sessions,
        &users,
        &accounts,
        &projects,
        NOW,
    )
    .unwrap_err();
    assert_eq!(err, JsonError::NotFound("Account not found".to_string()));
    // A member of another account only is denied.
    let mut other = plain_user(3);
    other.accounts = Some(vec![UserAccount { account_id: 8, is_manager: false }]);
    let users2 = UserStore { items: vec![other], next_id: 4 };
    let sessions2 = SessionStore { items: vec![session_for(3, 9)], next_id: 10 };
    let err = test_boss::project_endpoints::get_account_projects(
        jwt(9),
        7,
        &sessions2,
        &users2,
        &accounts,
        &projects,
        NOW,
    )
    .unwrap_err();
    assert_eq!(
        err,
        JsonError::Forbidden("You are not allowed to retrieve this account projects".to_string())
    );
}

#[test]
fn account_reads_and_writes_resolve_the_caller() {
    let member = plain_user(2);
    let users = UserStore { items: vec![admin_user(1), member], next_id: 3 };
    let sessions = SessionStore {
        items: vec![session_for(1, 5), session_for(2, 6)],
        next_id: 7,
    };
    let mut accounts = AccountStore {
        items: vec![
            Account { id: 7, name: "Acme".to_string(), created_at: 0, updated_at: 0 },
            Account { id: 8, name: "Umbrella".to_string(), created_at: 0, updated_at: 0 },
        ],
        next_id: 9,
    };
    // A member reads their own account; an admin reads any; a member is
    // denied another tenant's account.
    let got = test_boss::account_endpoints::get_account(jwt(6), 7, &sessions, &users, &accounts, NOW)
        .unwrap();
    assert_eq!(got.name, "Acme");
    let got = test_boss::account_endpoints::get_account(jwt(5), 8, &sessions, &users, &accounts, NOW)
        .unwrap();
    assert_eq!(got.name, "Umbrella");
    let err = test_boss::account_endpoints::get_account(jwt(6), 8, &sessions, &users, &accounts, NOW)
        .unwrap_err();
    assert_eq!(
        err,
        JsonError::Forbidden("You are not allowed to retrieve this account".to_string())
    );
    // Creation is admin-only.
    let err = test_boss::account_endpoints::create_account(
        jwt(6),
        test_boss::accounts::AccountDto { name: "New".to_string() },
        &sessions,
        &users,
        &mut accounts,
        NOW,
    )
    .unwrap_err();
    assert_eq!(
        err,
        JsonError::Forbidden("You are not allowed to perform this action".to_string())
    );
    let created = test_boss::account_endpoints::create_account(
        jwt(5),
        test_boss::accounts::AccountDto { name: "New".to_string() },
        &sessions,
        &users,
        &mut accounts,
        NOW,
    )
    .unwrap();
    assert_eq!(created.name, "New");
}
