use test_boss::accounts::{Account, AccountStore};
use test_boss::authz::{decide_access, Access};
use test_boss::config::Config;
use test_boss::errors::JsonError;
use test_boss::guards::{authorize_as_admin, get_jwt_session_and_user};
use test_boss::jwt::{authenticate, create_jwt, decode_jwt, extract_bearer, Claims, JWT};
use test_boss::session_endpoints::{
    change_password, delete_session, get_session, login, update_session,
};
use test_boss::sessions::{ChangePasswordDto, LoginDto, Session, SessionStore};
use test_boss::user_store::UserStore;
use test_boss::users::{User, UserAccount};

fn mk_user(
    id: u64,
    email: &str,
    pwdhash: &str,
    roles: Option<Vec<String>>,
    accounts: Option<Vec<UserAccount>>,
) -> User {
    User {
        id,
        email: email.to_string(),
        pwdhash: pwdhash.to_string(),
        firstname: "Ada".to_string(),
        lastname: "Lovelace".to_string(),
        roles,
        accounts,
        created_at: 1_000,
        updated_at: 1_000,
    }
}

fn member(account_id: u64) -> UserAccount {
    UserAccount { account_id, is_manager: false }
}

fn jwt_for(session_id: u64) -> Result<JWT, JsonError> {
    Ok(JWT { claims: Claims { session_id, exp: 4_000_000_000 }, token: "tok".to_string() })
}

fn real_now_secs() -> i64 {
    std::time::SystemTime::now()
        .duration_since(std::time::SystemTime::UNIX_EPOCH)
        .unwrap()
        .as_secs() as i64
}

#[test]
fn no_membership_is_forbidden_even_for_existing_resource() {
    // A user with an absent membership list and no admin tag is denied.
    let user = mk_user(1, "u@example.com", "", Some(vec![]), None);
    assert_eq!(decide_access(&user, Some(7)), Access::Forbidden);
    // A user with an empty membership list is denied as well.
    let user2 = mk_user(2, "v@example.com", "", Some(vec![]), Some(vec![]));
    assert_eq!(decide_access(&user2, Some(7)), Access::Forbidden);
    // Even a missing resource is not reported to a caller without a
    // list, nor to one with an empty list: the denial is outright.
    assert_eq!(decide_access(&user, None), Access::Forbidden);
    assert_eq!(decide_access(&user2, None), Access::Forbidden);
}

#[test]
fn membership_decides_cross_tenant_access() {
    // A member of account 8 only is denied a resource owned by account 7.
    let outsider = mk_user(1, "b@example.com", "", None, Some(vec![member(8)]));
    assert_eq!(decide_access(&outsider, Some(7)), Access::Forbidden);
    // A member of account 7 is granted it.
    let insider = mk_user(2, "a@example.com", "", None, Some(vec![member(8), member(7)]));
    assert_eq!(decide_access(&insider, Some(7)), Access::Granted);
    // A missing resource is reported as missing to a caller with a list.
    assert_eq!(decide_access(&insider, None), Access::NotFound);
}

#[test]
fn admin_bypasses_membership_check() {
    let admin = mk_user(1, "root@example.com", "", Some(vec!["admin".to_string()]), None);
    assert_eq!(decide_access(&admin, Some(7)), Access::Granted);
    let admin_elsewhere = mk_user(
        2,
        "root2@example.com",
        "",
        Some(vec!["admin".to_string()]),
        Some(vec![member(8)]),
    );
    assert_eq!(decide_access(&admin_elsewhere, Some(7)), Access::Granted);
    // Absence still wins over the bypass.
    assert_eq!(decide_access(&admin, None), Access::NotFound);
}

#[test]
fn verify_credentials_hides_which_part_failed() {
    let hash = bcrypt::hash("correct horse", 4).unwrap();
    let users = UserStore {
        items: vec![mk_user(1, "a@b.com", &hash, None, Some(vec![member(7)]))],
        next_id: 2,
    };
    // Unknown e-mail address.
    let unknown = LoginDto { email: "nobody@b.com".to_string(), password: "whatever".to_string() };
    assert_eq!(users.verify_login(&unknown).unwrap(), None);
    // Known address, wrong password: indistinguishable from the above.
    let wrong = LoginDto { email: "a@b.com".to_string(), password: "wrong".to_string() };
    assert_eq!(users.verify_login(&wrong).unwrap(), None);
    // Known address, right password.
    let right = LoginDto { email: "a@b.com".to_string(), password: "correct horse".to_string() };
    let found = users.verify_login(&right).unwrap().unwrap();
    assert_eq!(found.id, 1);
}

fn seeded_world() -> (UserStore, SessionStore, AccountStore, Config) {
    let hash = bcrypt::hash("correct", 4).unwrap();
    let users = UserStore {
        items: vec![mk_user(
            1,
            "a@b.com",
            &hash,
            Some(vec!["account_manager".to_string()]),
            Some(vec![UserAccount { account_id: 7, is_manager: true }]),
        )],
        next_id: 2,
    };
    let sessions = SessionStore::new();
    let accounts = AccountStore {
        items: vec![Account {
            id: 7,
            name: "Acme".to_string(),
            created_at: 5,
            updated_at: 6,
        }],
        next_id: 8,
    };
    let cfg = Config {
        mongodb_uri: String::new(),
        jwt_secret: "test-signing-secret".to_string(),
        jwt_duration: 3600,
        session_duration: 1800,
        allowed_origins: "http://localhost".to_string(),
    };
    (users, sessions, accounts, cfg)
}

#[test]
fn login_with_correct_credentials_returns_token_user_and_accounts() {
    let (users, mut sessions, accounts, cfg) = seeded_world();
    let now_ms = real_now_secs() * 1000;
    let data = LoginDto { email: "a@b.com".to_string(), password: "correct".to_string() };
    let res = login(data, &users, &mut sessions, &accounts, &cfg, now_ms).unwrap();
    assert!(!res.token.is_empty());
    assert_eq!(res.user.id, 1);
    assert_eq!(res.user.email, "a@b.com");
    assert_eq!(res.accounts.len(), 1);
    assert_eq!(res.accounts[0].id, 7);
    assert_eq!(res.accounts[0].name, "Acme");
    assert!(res.accounts[0].is_manager);
    // A session was created for the user.
    assert_eq!(sessions.items.len(), 1);
    assert_eq!(sessions.items[0].user_id, 1);
    // The issued token decodes back to that session.
    let claims = decode_jwt(&res.token, &cfg.jwt_secret).unwrap();
    assert_eq!(claims.session_id, sessions.items[0].id);
}

#[test]
fn login_with_wrong_password_is_unauthorized() {
    let (users, mut sessions, accounts, cfg) = seeded_world();
    let now_ms = real_now_secs() * 1000;
    let data = LoginDto { email: "a@b.com".to_string(), password: "wrong".to_string() };
    let err = login(data, &users, &mut sessions, &accounts, &cfg, now_ms).unwrap_err();
    assert_eq!(err, JsonError::Unauthorized("Invalid credentials".to_string()));
    assert_eq!(err.get_http_status(), 401);
    assert_eq!(err.message_text(), "Error Unauthorized: Invalid credentials.");
    assert!(sessions.items.is_empty());
}

#[test]
fn token_round_trip_through_the_bearer_header() {
    let (users, mut sessions, accounts, cfg) = seeded_world();
    let now_ms = real_now_secs() * 1000;
    let data = LoginDto { email: "a@b.com".to_string(), password: "correct".to_string() };
    let res = login(data, &users, &mut sessions, &accounts, &cfg, now_ms).unwrap();
    let header = format!("Bearer {}", res.token);
    let jwt = authenticate(Some(&header), &cfg.jwt_secret).unwrap();
    assert_eq!(jwt.claims.session_id, sessions.items[0].id);
    let me = get_session(Ok(jwt), &users, &sessions, &accounts, now_ms).unwrap();
    assert_eq!(me.user.id, 1);
    assert_eq!(me.accounts.len(), 1);
}

#[test]
fn authenticate_rejects_missing_and_garbled_tokens() {
    let secret = "s3".to_string();
    let missing = authenticate(None, &secret).unwrap_err();
    assert_eq!(
        missing,
        JsonError::Unauthorized("Error validating JWT token - No Token Provided".to_string())
    );
    let garbled = "Bearer aaa".to_string();
    let err = authenticate(Some(&garbled), &secret).unwrap_err();
    assert_eq!(
        err,
        JsonError::Unauthorized("Error validating JWT token - Invalid Token".to_string())
    );
    // A token signed with another secret is rejected, and every token
    // failure is unauthorized.
    let other = create_jwt(1, (real_now_secs() + 600) as u64, &"other".to_string()).unwrap();
    let header = format!("Bearer {}", other);
    let err = authenticate(Some(&header), &secret).unwrap_err();
    assert_eq!(err, JsonError::Unauthorized("Error validating JWT token".to_string()));
    assert_eq!(err.get_http_status(), 401);
}

#[test]
fn bearer_extraction_strips_prefix_and_whitespace() {
    assert_eq!(extract_bearer("Bearer abc.def.ghi"), "abc.def.ghi");
    assert_eq!(extract_bearer("BearerBearer  xyz "), "xyz");
    assert_eq!(extract_bearer("  plain  "), "plain");
    assert_eq!(extract_bearer("Bearer"), "");
}

#[test]
fn expired_or_deleted_sessions_do_not_resolve() {
    let (users, _, accounts, cfg) = seeded_world();
    let now_ms = 1_000_000i64;
    let mut sessions = SessionStore::new();
    let sid = sessions.create_session(1, now_ms, cfg.session_duration);
    // Resolves while fresh.
    let jwts = get_jwt_session_and_user(&sessions, &users, jwt_for(sid), now_ms).unwrap();
    assert_eq!(jwts.user.id, 1);
    // Treated as absent once the expiry has passed.
    let later = now_ms + cfg.session_duration * 1000 + 1;
    let err = get_jwt_session_and_user(&sessions, &users, jwt_for(sid), later).unwrap_err();
    assert_eq!(err, JsonError::Unauthorized("Session not found".to_string()));
    // Logout removes the session; the next resolution fails.
    assert!(delete_session(jwt_for(sid), &mut sessions, now_ms).is_ok());
    let err2 = get_session(jwt_for(sid), &users, &sessions, &accounts, now_ms).unwrap_err();
    assert_eq!(err2, JsonError::Unauthorized("Session not found".to_string()));
}

#[test]
fn session_renewal_pushes_the_expiry_forward() {
    let (users, _, accounts, cfg) = seeded_world();
    let now_ms = real_now_secs() * 1000;
    let mut sessions = SessionStore::new();
    let sid = sessions.create_session(1, now_ms, cfg.session_duration);
    let first_expiry = sessions.items[0].expires_at;
    let later = now_ms + 60_000;
    let res = update_session(jwt_for(sid), &users, &mut sessions, &accounts, &cfg, later).unwrap();
    assert!(sessions.items[0].expires_at > first_expiry);
    assert_eq!(sessions.items.len(), 1);
    assert_eq!(res.user.id, 1);
}

#[test]
fn admin_guard_rejects_non_admin_callers() {
    let (users, _, _, cfg) = seeded_world();
    let mut sessions = SessionStore::new();
    let now_ms = 1_000_000i64;
    let sid = sessions.create_session(1, now_ms, cfg.session_duration);
    let err = authorize_as_admin(jwt_for(sid), &sessions, &users, now_ms).unwrap_err();
    assert_eq!(
        err,
        JsonError::Forbidden("You are not allowed to perform this action".to_string())
    );
}

#[test]
fn change_password_checks_inputs_and_old_password() {
    let hash = bcrypt::hash("old-secret-1", 4).unwrap();
    let mut users = UserStore {
        items: vec![mk_user(1, "a@b.com", &hash, None, Some(vec![member(7)]))],
        next_id: 2,
    };
    let mut sessions = SessionStore::new();
    let now_ms = 1_000_000i64;
    let sid = sessions.create_session(1, now_ms, 1800);

    let empty = ChangePasswordDto { old_password: String::new(), new_password: "x".to_string() };
    let err = change_password(jwt_for(sid), empty, &mut users, &sessions, now_ms).unwrap_err();
    assert_eq!(
        err,
        JsonError::BadRequest("Old password and new password cannot be empty".to_string())
    );

    let weak = ChangePasswordDto {
        old_password: "old-secret-1".to_string(),
        new_password: "password".to_string(),
    };
    let err = change_password(jwt_for(sid), weak, &mut users, &sessions, now_ms).unwrap_err();
    assert_eq!(err, JsonError::BadRequest("New password is not strong enough".to_string()));

    let wrong_old = ChangePasswordDto {
        old_password: "not the old one".to_string(),
        new_password: "Tr0ub4dour&3horse".to_string(),
    };
    let err = change_password(jwt_for(sid), wrong_old, &mut users, &sessions, now_ms).unwrap_err();
    assert_eq!(err, JsonError::Unauthorized("Invalid password".to_string()));

    let good = ChangePasswordDto {
        old_password: "old-secret-1".to_string(),
        new_password: "Tr0ub4dour&3horse".to_string(),
    };
    assert!(change_password(jwt_for(sid), good, &mut users, &sessions, now_ms).is_ok());
    assert!(bcrypt::verify("Tr0ub4dour&3horse", &users.items[0].pwdhash).unwrap());
    assert_eq!(users.items[0].updated_at, now_ms);
}
