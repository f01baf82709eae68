use quittance::error::AppError;
use quittance::password::{hash, hash_with_salt, verify};

#[test]
fn password_verifies_against_its_digest() {
    let digest = hash("password1").unwrap();
    assert!(verify("password1", &digest));
}

#[test]
fn other_password_does_not_verify() {
    let digest = hash("password1").unwrap();
    assert!(!verify("password2", &digest));
    assert!(!verify("", &digest));
    assert!(!verify("password1 ", &digest));
}

#[test]
fn two_digests_of_one_password_differ_and_both_verify() {
    let a = hash("password1").unwrap();
    let b = hash("password1").unwrap();
    assert_ne!(a, b);
    assert!(verify("password1", &a));
    assert!(verify("password1", &b));
}

#[test]
fn digest_is_self_describing() {
    let digest = hash("password1").unwrap();
    assert!(digest.starts_with("$argon2id$v=19$m=19456,t=2,p=1$"));
    assert_eq!(digest.split('$').count(), 6);
}

#[test]
fn digest_under_a_salt_is_a_function_of_password_and_salt() {
    let a = hash_with_salt("hunter42", "c29tZXNhbHRzb21lc2FsdA").unwrap();
    let b = hash_with_salt("hunter42", "c29tZXNhbHRzb21lc2FsdA").unwrap();
    assert_eq!(a, b);
    assert!(a.starts_with("$argon2id$v=19$m=19456,t=2,p=1$c29tZXNhbHRzb21lc2FsdA$"));
    assert!(verify("hunter42", &a));
    let c = hash_with_salt("hunter42", "YW5vdGhlcnNhbHRhbm90aGVy").unwrap();
    assert_ne!(a, c);
    assert!(verify("hunter42", &c));
}

#[test]
fn unusable_salt_is_an_internal_error() {
    assert!(matches!(hash_with_salt("hunter42", ""), Err(AppError::Internal)));
    assert!(matches!(hash_with_salt("hunter42", "abc"), Err(AppError::Internal)));
    assert!(matches!(hash_with_salt("hunter42", "not a salt!"), Err(AppError::Internal)));
}

#[test]
fn malformed_digest_does_not_verify() {
    assert!(!verify("password1", ""));
    assert!(!verify("password1", "password1"));
    assert!(!verify("password1", "$argon2id$"));
    assert!(!verify("password1", "$argon2id$v=19$m=19456,t=2,p=1$c29tZXNhbHRzb21lc2FsdA"));
    assert!(!verify("password1", "$unknown$v=19$m=19456,t=2,p=1$c29tZXNhbHRzb21lc2FsdA$AAAA"));
}

#[test]
fn empty_password_has_a_digest_too() {
    let digest = hash("").unwrap();
    assert!(verify("", &digest));
    assert!(!verify("x", &digest));
}

#[test]
fn every_digest_that_comes_out_verifies_its_password() {
    let passwords = ["", "mot de passe très long \u{1F511} avec des accents", "\u{0}\u{1}\u{2}"];
    let salts = ["AAAAAAAAAAAAAAAAAAAAAA", "abcdefghijk"];
    for password in passwords {
        for salt in salts {
            let digest = hash_with_salt(password, salt).unwrap();
            assert!(verify(password, &digest), "{:?} under {:?}", password, salt);
            assert!(!verify("something else", &digest));
            assert!(digest.contains(salt));
        }
    }
}

#[test]
fn salt_that_is_no_encoding_of_bytes_is_an_internal_error() {
    assert!(matches!(hash_with_salt("password1", "a/b+c.d-e0123456789ABCDEF"), Err(AppError::Internal)));
    assert!(matches!(hash_with_salt("password1", "abcdefghij"), Err(AppError::Internal)));
}
