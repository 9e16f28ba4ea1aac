use minitweet::error::AppError;
use minitweet::token::{
    create_jwt, issue_token_at, verify_jwt, verify_token_at, TOKEN_LIFETIME_SECONDS,
};

const SECRET: &str = "test-signing-secret";

#[test]
fn fresh_token_is_accepted() {
    let now = 1_700_000_000;
    let token = issue_token_at(42, now, SECRET).expect("issuing must succeed");
    assert_eq!(verify_token_at(&token, now, SECRET), Ok(42));
}

#[test]
fn token_is_accepted_until_the_last_second() {
    let now = 1_700_000_000;
    let token = issue_token_at(7, now, SECRET).expect("issuing must succeed");
    assert_eq!(verify_token_at(&token, now + TOKEN_LIFETIME_SECONDS - 1, SECRET), Ok(7));
}

#[test]
fn expired_token_is_rejected() {
    let now = 1_700_000_000;
    let token = issue_token_at(7, now, SECRET).expect("issuing must succeed");
    assert_eq!(
        verify_token_at(&token, now + TOKEN_LIFETIME_SECONDS, SECRET),
        Err(AppError::Unauthorized)
    );
    assert_eq!(
        verify_token_at(&token, now + TOKEN_LIFETIME_SECONDS + 5000, SECRET),
        Err(AppError::Unauthorized)
    );
}

#[test]
fn tampered_token_is_rejected() {
    let now = 1_700_000_000;
    let token = issue_token_at(99, now, SECRET).expect("issuing must succeed");
    // Flip one character somewhere in the payload.
    let mut bytes = token.clone().into_bytes();
    let middle = bytes.len() / 2;
    bytes[middle] = if bytes[middle] == b'A' { b'B' } else { b'A' };
    let tampered = String::from_utf8(bytes).expect("token stays ASCII");
    assert_ne!(token, tampered);
    assert_eq!(verify_token_at(&tampered, now, SECRET), Err(AppError::Unauthorized));
}

#[test]
fn wrong_secret_is_rejected() {
    let now = 1_700_000_000;
    let token = issue_token_at(5, now, SECRET).expect("issuing must succeed");
    assert_eq!(verify_token_at(&token, now, "another secret"), Err(AppError::Unauthorized));
}

#[test]
fn garbage_token_is_rejected() {
    assert_eq!(verify_token_at("definitely.not.ajwt", 0, SECRET), Err(AppError::Unauthorized));
    assert_eq!(verify_token_at("", 0, SECRET), Err(AppError::Unauthorized));
}

#[test]
fn clock_based_issue_and_verify_round_trip() {
    let token = create_jwt(77, SECRET).expect("issuing must succeed");
    assert_eq!(verify_jwt(&token, SECRET), Ok(77));
    assert_eq!(verify_jwt(&token, "other secret"), Err(AppError::Unauthorized));
}

#[test]
fn token_carries_the_largest_identifier() {
    let now = 1_700_000_000;
    let token = issue_token_at(u128::MAX, now, SECRET).expect("issuing must succeed");
    assert_eq!(verify_token_at(&token, now, SECRET), Ok(u128::MAX));
}
