use tauri_auth_core::auth::avatar_file_name;
use tauri_auth_core::auth::generate_session_token;
use tauri_auth_core::auth::hash_password;
use tauri_auth_core::auth::hash_with_salt;
use tauri_auth_core::auth::session_token_at;
use tauri_auth_core::auth::verify_password;
use tauri_auth_core::auth::SESSION_LIFETIME_SECS;

#[test]
fn hashes_differ_and_verify() {
    let first = hash_password("hunter2".to_string()).unwrap().hash;
    let second = hash_password("hunter2".to_string()).unwrap().hash;
    assert_ne!(first, second);
    assert!(first.starts_with("$argon2id$"));
    assert!(verify_password("hunter2".to_string(), first).unwrap().matches);
}

#[test]
fn wrong_password_is_rejected() {
    let hash = hash_password("correct horse".to_string()).unwrap().hash;
    assert!(!verify_password("battery staple".to_string(), hash).unwrap().matches);
}

#[test]
fn empty_password_hashes() {
    // Hashing never fails on the password's content.
    let hash = hash_password(String::new()).unwrap().hash;
    assert!(verify_password(String::new(), hash.clone()).unwrap().matches);
    assert!(!verify_password("x".to_string(), hash).unwrap().matches);
}

#[test]
fn malformed_hash_is_an_error() {
    assert!(verify_password("p".to_string(), "not-a-hash".to_string()).is_err());
    assert!(verify_password("p".to_string(), String::new()).is_err());
    assert!(verify_password("p".to_string(), "argon2id$v=19$m=19456".to_string()).is_err());
}

#[test]
fn same_salt_gives_same_hash() {
    let a = hash_with_salt("pw", "c2FsdHNhbHRzYWx0").unwrap().hash;
    let b = hash_with_salt("pw", "c2FsdHNhbHRzYWx0").unwrap().hash;
    assert_eq!(a, b);
    assert_ne!(a, "pw");
    assert!(a.contains("c2FsdHNhbHRzYWx0"));
    assert!(verify_password("pw".to_string(), a).unwrap().matches);
}

#[test]
fn bad_salt_is_an_error() {
    assert!(hash_with_salt("pw", "not b64!").is_err());
}

#[test]
fn tokens_are_fresh() {
    let a = generate_session_token().unwrap();
    let b = generate_session_token().unwrap();
    assert_ne!(a.token, b.token);
    assert_eq!(a.token.len(), 36);
    let chars: Vec<char> = a.token.chars().collect();
    for (i, c) in chars.iter().enumerate() {
        if i == 8 || i == 13 || i == 18 || i == 23 {
            assert_eq!(*c, '-');
        } else {
            assert!(c.is_ascii_hexdigit() && !c.is_ascii_uppercase());
        }
    }
    assert_eq!(chars[14], '4');
    assert!(matches!(chars[19], '8' | '9' | 'a' | 'b'));
    assert!(a.expires_at >= SESSION_LIFETIME_SECS);
}

#[test]
fn token_expires_thirty_days_later() {
    let r = session_token_at("t".to_string(), Some(1_700_000_000)).unwrap();
    assert_eq!(r.token, "t");
    assert_eq!(r.expires_at - 1_700_000_000, 30 * 24 * 3600);
    assert_eq!(r.expires_at, 1_702_592_000);
}

#[test]
fn token_errors() {
    assert!(session_token_at("t".to_string(), None).is_err());
    assert!(session_token_at("t".to_string(), Some(u64::MAX - 10)).is_err());
    assert!(session_token_at("t".to_string(), Some(u64::MAX - 2_592_000)).is_ok());
}

#[test]
fn avatar_name() {
    assert_eq!(avatar_file_name("user42"), "user42.jpg");
    assert_eq!(avatar_file_name(""), ".jpg");
}
