use microblog::models::password::{
    hash_password, is_well_formed_hash, hash_password_with_salt, try_verify_password, verify_password, PasswordError,
};

#[test]
fn hashed_password_verifies() {
    let h = hash_password("hunter42".to_string()).unwrap();
    assert!(h.starts_with("$argon2id$v=19$m=19456,t=2,p=1$"));
    assert_eq!(h.len(), 31 + 22 + 1 + 43);
    assert!(matches!(h.as_bytes()[31 + 21], b'A' | b'Q' | b'g' | b'w'));
    let fields: Vec<&str> = h.split('$').collect();
    assert_eq!(fields.len(), 6);
    assert_eq!(fields[4].len(), 22);
    assert_ne!(h, "hunter42");
    assert!(verify_password(&"hunter42".to_string(), h.clone()));
    assert!(!verify_password(&"hunter43".to_string(), h.clone()));
    assert_eq!(try_verify_password(&"hunter42".to_string(), h), Some(true));
}

#[test]
fn hashing_with_a_given_salt_is_deterministic() {
    let salt = "c2FsdHNhbHRzYWx0c2FsdA".to_string();
    let a = hash_password_with_salt(&"pw".to_string(), &salt).unwrap();
    let b = hash_password_with_salt(&"pw".to_string(), &salt).unwrap();
    assert_eq!(a, b);
    assert!(a.contains("$c2FsdHNhbHRzYWx0c2FsdA$"));
    let c = hash_password_with_salt(&"other".to_string(), &salt).unwrap();
    assert_ne!(a, c);
}

#[test]
fn invalid_salt_fails_to_hash() {
    assert_eq!(hash_password_with_salt(&"pw".to_string(), &"ab".to_string()), Err(PasswordError::Hashing));
    assert_eq!(hash_password_with_salt(&"pw".to_string(), &"not a salt!".to_string()), Err(PasswordError::Hashing));
}

#[test]
fn malformed_hash_is_reported() {
    assert_eq!(try_verify_password(&"pw".to_string(), "not a hash".to_string()), None);
    assert_eq!(try_verify_password(&"pw".to_string(), String::new()), None);
}

#[test]
fn well_formed_hash_check_does_not_hash() {
    let salt = "c2FsdHNhbHRzYWx0c2FsdA".to_string();
    let h = hash_password_with_salt(&"pw".to_string(), &salt).unwrap();
    assert!(is_well_formed_hash(&h));
    assert!(!is_well_formed_hash(&"plain".to_string()));
    assert!(!is_well_formed_hash(&String::new()));
}

#[test]
fn hashing_succeeds_for_long_and_empty_passwords() {
    assert!(hash_password(String::new()).is_ok());
    let long = "é".repeat(5000);
    let h = hash_password(long.clone()).unwrap();
    assert!(verify_password(&long, h));
}
