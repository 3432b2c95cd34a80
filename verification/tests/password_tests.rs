// Tests of password hashing and verification: the hash/verify round trip,
// rejection of wrong passwords, and the malformed-hash server fault.

use insta_auth::password::{hash_password, verify_password};

#[test]
fn hash_then_verify_succeeds() {
    let h = hash_password("secret1").unwrap();
    assert_eq!(verify_password("secret1", &h).unwrap(), true);
}

#[test]
fn wrong_password_does_not_verify() {
    let h = hash_password("secret1").unwrap();
    assert_eq!(verify_password("secret2", &h).unwrap(), false);
    assert_eq!(verify_password("", &h).unwrap(), false);
}

#[test]
fn hash_is_a_phc_argon2_string() {
    let h = hash_password("secret1").unwrap();
    assert!(h.contains("argon2"));
    assert!(h.starts_with("$"));
}

#[test]
fn two_hashes_of_one_password_use_fresh_salts() {
    let h1 = hash_password("secret1").unwrap();
    let h2 = hash_password("secret1").unwrap();
    assert_ne!(h1, h2);
    assert_eq!(verify_password("secret1", &h1).unwrap(), true);
    assert_eq!(verify_password("secret1", &h2).unwrap(), true);
}

#[test]
fn malformed_hash_is_a_server_fault() {
    let r = verify_password("secret1", "not-a-phc-string");
    let e = r.unwrap_err();
    assert_eq!(e.code, Some(500));
}

#[test]
fn empty_password_still_hashes() {
    let h = hash_password("").unwrap();
    assert_eq!(verify_password("", &h).unwrap(), true);
    assert_eq!(verify_password("x", &h).unwrap(), false);
}
