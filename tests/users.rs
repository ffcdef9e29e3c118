use lqos_queue_core::authentication::{AuthError, UserRole, WebUsers};
use sha2::{Digest, Sha256};

fn expected_hash(password: &str) -> String {
    let mut h = Sha256::new();
    h.update(format!("!x{password}_LibreQosLikesPasswordsForDinner"));
    format!("{:X}", h.finalize())
}

#[test]
fn password_hash_is_salted_sha256() {
    let h = WebUsers::hash_password("secret");
    assert_eq!(h, expected_hash("secret"));
    assert_eq!(h.len(), 64);
    assert_ne!(h, "secret");
    assert_ne!(WebUsers::hash_password("other"), h);
}

#[test]
fn role_names() {
    assert_eq!(UserRole::from_name("admin"), UserRole::Admin);
    assert_eq!(UserRole::from_name("ADMIN"), UserRole::Admin);
    assert_eq!(UserRole::from_name("viewer"), UserRole::ReadOnly);
    assert_eq!(UserRole::Admin.to_string(), "admin");
    assert_eq!(UserRole::ReadOnly.to_string(), "read-only");
}

#[test]
fn add_then_login() {
    let mut users = WebUsers::default();
    let token = users.add_or_update_user("alice", "pw1", UserRole::Admin);
    assert_eq!(users.users.len(), 1);
    assert_eq!(users.users[0].password_hash, expected_hash("pw1"));
    assert_eq!(users.login("alice", "pw1"), Ok(token.clone()));
    assert_eq!(users.login("alice", "wrong"), Err(AuthError::InvalidLogin));
    assert_eq!(users.get_role_from_token(&token), Ok(UserRole::Admin));
    assert_eq!(users.get_username(&token), "alice");
    assert_eq!(users.get_username("nobody"), "Anonymous");
    assert_eq!(users.get_role_from_token("nobody"), Err(AuthError::UnknownToken));
}

#[test]
fn update_keeps_token() {
    let mut users = WebUsers::new();
    let token = users.add_or_update_user("bob", "old", UserRole::Admin);
    let again = users.add_or_update_user("bob", "new", UserRole::ReadOnly);
    assert_eq!(token, again);
    assert_eq!(users.users.len(), 1);
    assert_eq!(users.login("bob", "old"), Err(AuthError::InvalidLogin));
    assert_eq!(users.login("bob", "new"), Ok(token.clone()));
    assert_eq!(users.get_role_from_token(&token), Ok(UserRole::ReadOnly));
}

#[test]
fn hashed_add_uses_given_token() {
    let mut users = WebUsers::new();
    let t = users.add_or_update_user_hashed("carol", "HASH".to_string(), UserRole::ReadOnly, "tok-1".to_string());
    assert_eq!(t, "tok-1");
    assert_eq!(users.login_with_hash("carol", "HASH"), Ok("tok-1".to_string()));
    assert_eq!(users.login_with_hash("carol", "OTHER"), Err(AuthError::InvalidLogin));
}

#[test]
fn anonymous_viewing() {
    let mut users = WebUsers::new();
    assert!(!users.do_we_allow_anonymous());
    users.allow_anonymous(true);
    assert!(users.do_we_allow_anonymous());
    assert_eq!(users.login("ghost", "x"), Ok("default".to_string()));
    assert_eq!(users.get_role_from_token("none"), Ok(UserRole::ReadOnly));
}

#[test]
fn remove_user_reports_missing() {
    let mut users = WebUsers::new();
    let keep = users.add_or_update_user("dave", "a", UserRole::Admin);
    users.add_or_update_user("erin", "b", UserRole::Admin);
    assert_eq!(users.remove_user("erin"), Ok(()));
    assert_eq!(users.users.len(), 1);
    assert_eq!(users.get_username(&keep), "dave");
    assert_eq!(users.remove_user("erin"), Err(AuthError::UserNotFound));
}

#[test]
fn role_from_str() {
    assert_eq!(UserRole::from("Admin"), UserRole::Admin);
    assert_eq!(UserRole::from("read-only"), UserRole::ReadOnly);
}
