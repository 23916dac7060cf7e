use restful_auth::password::{hash_password, verify_password, HashingFailed};

#[test]
fn hashed_password_verifies() {
    let h = hash_password("pw123").unwrap();
    assert_ne!(h, "pw123");
    assert!(h.starts_with("$argon2id$"));
    assert_eq!(verify_password("pw123", &h), Ok(true));
}

#[test]
fn other_password_does_not_verify() {
    let h = hash_password("pw123").unwrap();
    assert_eq!(verify_password("pw124", &h), Ok(false));
}

#[test]
fn two_hashes_of_one_password_differ() {
    let a = hash_password("same password").unwrap();
    let b = hash_password("same password").unwrap();
    assert_ne!(a, b);
}

#[test]
fn second_hash_of_one_password_verifies() {
    let a = hash_password("same password").unwrap();
    let b = hash_password("same password").unwrap();
    assert_eq!(verify_password("same password", &b), Ok(true));
    assert_ne!(a, b);
}

#[test]
fn empty_password_round_trip() {
    let h = hash_password("").unwrap();
    assert_eq!(verify_password("", &h), Ok(true));
}

#[test]
fn malformed_stored_hash_is_an_error() {
    assert_eq!(verify_password("pw123", "not a hash"), Err(HashingFailed::MalformedStored));
    assert_eq!(verify_password("pw123", ""), Err(HashingFailed::MalformedStored));
}
