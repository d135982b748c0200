use haraltr::auth::{
    authorize, check_new_password, confirm_password, hash_password, login, verify_password, LoginError,
    PasswordError,
};
use haraltr::session::{SessionStore, SESSION_DURATION_MS};

const NOW: u64 = 1_000_000;

#[test]
fn app_state_session_management() {
    let mut state = SessionStore::new();
    let token = state.create_session(NOW);

    assert_eq!(token.len(), 64);
    assert!(state.validate_session(&token, NOW));

    state.remove_session(&token);
    assert!(!state.validate_session(&token, NOW));
}

#[test]
fn app_state_validate_missing_session() {
    let mut state = SessionStore::new();
    assert!(!state.validate_session("nonexistent", NOW));
}

#[test]
fn create_session_returns_64_hex() {
    let mut state = SessionStore::new();
    let token = state.create_session(NOW);
    assert_eq!(token.len(), 64);
    assert!(token.chars().all(|c| c.is_ascii_hexdigit()));
    assert!(state.contains(&token));
}

#[test]
fn validate_session_valid() {
    let mut state = SessionStore::new();
    let token = state.create_session(NOW);
    assert!(state.validate_session(&token, NOW));
}

#[test]
fn validate_session_unknown() {
    let mut state = SessionStore::new();
    assert!(!state.validate_session("nonexistent", NOW));
}

#[test]
fn validate_session_expired() {
    let mut state = SessionStore::new();
    let token = "expired_token".to_string();
    let past_expiry = NOW - 1000;
    state.insert(token.clone(), past_expiry);
    assert!(!state.validate_session(&token, NOW));
    assert!(!state.contains(&token));
}

#[test]
fn session_lasts_exactly_its_duration() {
    let mut state = SessionStore::new();
    let token = state.create_session(NOW);
    assert!(state.validate_session(&token, NOW + SESSION_DURATION_MS - 1));
    assert!(!state.validate_session(&token, NOW + SESSION_DURATION_MS));
    assert!(!state.contains(&token));
    assert_eq!(SESSION_DURATION_MS, 24 * 60 * 60 * 1000);
}

#[test]
fn tokens_are_lower_case_and_differ() {
    let mut state = SessionStore::new();
    let a = state.create_session(NOW);
    let b = state.create_session(NOW);
    assert_ne!(a, b);
    assert!(a.chars().all(|c| c.is_ascii_digit() || ('a'..='f').contains(&c)));
    assert!(state.contains(&a) && state.contains(&b));
}

#[test]
fn verify_password_correct() {
    let hash = hash_password("test123").unwrap();
    assert!(verify_password("test123", &hash));
}

#[test]
fn verify_password_wrong() {
    let hash = hash_password("test123").unwrap();
    assert!(!verify_password("wrong", &hash));
}

#[test]
fn verify_password_rejects_a_hash_that_does_not_parse() {
    assert!(!verify_password("test123", "not a phc string"));
    assert!(!verify_password("", ""));
}

#[test]
fn login_outcomes() {
    let mut store = SessionStore::new();
    assert_eq!(login(&mut store, &None, "secret", NOW), Err(LoginError::NoPasswordHash));
    let hash = Some(hash_password("secret").unwrap());
    assert_eq!(login(&mut store, &hash, "wrong", NOW), Err(LoginError::InvalidPassword));
    let token = login(&mut store, &hash, "secret", NOW).unwrap();
    assert_eq!(token.len(), 64);
    assert!(authorize(&mut store, Some(&token), NOW + 1));
    assert!(!authorize(&mut store, None, NOW));
    assert!(!authorize(&mut store, Some("bogus_token"), NOW));
    store.remove_session(&token);
    assert!(!authorize(&mut store, Some(&token), NOW + 1));
}

#[test]
fn new_password_rules() {
    assert_eq!(check_new_password(""), Err(PasswordError::Empty));
    assert_eq!(check_new_password("short"), Err(PasswordError::TooShort));
    assert_eq!(check_new_password("1234567"), Err(PasswordError::TooShort));
    assert_eq!(check_new_password("12345678"), Ok(()));
    assert_eq!(confirm_password("abcdefgh", "abcdefgh"), Ok(()));
    assert_eq!(confirm_password("abcdefgh", "abcdefgX"), Err(PasswordError::Mismatch));
}

#[test]
fn hashed_password_is_a_phc_string() {
    let h = hash_password("correct horse").unwrap();
    assert!(h.starts_with("$argon2id$"));
    assert!(verify_password("correct horse", &h));
}

#[test]
fn a_password_set_then_logs_in() {
    let hash = hash_password("new password 1").unwrap();
    let mut store = SessionStore::new();
    assert!(login(&mut store, &Some(hash.clone()), "new password 1", NOW).is_ok());
    assert_eq!(login(&mut store, &Some(hash), "", NOW), Err(LoginError::InvalidPassword));
}

#[test]
fn hashing_succeeds_with_a_fresh_salt_each_time() {
    let a = hash_password("").unwrap();
    let b = hash_password("").unwrap();
    assert_ne!(a, b);
    assert!(verify_password("", &a) && verify_password("", &b));
    let salt = a.split('$').nth(4).unwrap();
    assert_eq!(salt.len(), 22);
    assert!(matches!(salt.chars().last(), Some('A' | 'Q' | 'g' | 'w')));
}
