use minitweet::credential::{hash_password, password_round_trip, verify_password};
use minitweet::error::AppError;

#[test]
fn hash_then_verify_accepts() {
    let credential = hash_password("hunter2").expect("hashing must succeed");
    assert_eq!(verify_password("hunter2", &credential), Ok(true));
}

#[test]
fn verify_rejects_other_password() {
    let credential = hash_password("hunter2").expect("hashing must succeed");
    assert_eq!(verify_password("hunter3", &credential), Ok(false));
    assert_eq!(verify_password("", &credential), Ok(false));
}

#[test]
fn round_trip_helper_matches() {
    assert_eq!(password_round_trip("s3cret pass"), Ok(true));
}

#[test]
fn two_hashes_of_one_password_differ_but_both_verify() {
    let first = hash_password("same input").expect("hashing must succeed");
    let second = hash_password("same input").expect("hashing must succeed");
    // Each hash carries its own random salt.
    assert_ne!(first, second);
    assert_eq!(verify_password("same input", &first), Ok(true));
    assert_eq!(verify_password("same input", &second), Ok(true));
}

#[test]
fn malformed_credential_is_internal_error() {
    assert_eq!(verify_password("pw", "not a bcrypt credential"), Err(AppError::Internal));
}
