use minitweet::auth::{authenticate, bearer_token, resolve, AuthError};
use minitweet::error::AppError;
use minitweet::token::issue_token_at;

const SECRET: &str = "auth-test-secret";

#[test]
fn missing_header_yields_missing_header() {
    assert_eq!(bearer_token(None), Err(AuthError::MissingHeader));
}

#[test]
fn non_bearer_header_is_invalid_format() {
    assert_eq!(bearer_token(Some("Basic dXNlcjpwdw==")), Err(AuthError::InvalidFormat));
    assert_eq!(bearer_token(Some("bearer x")), Err(AuthError::InvalidFormat));
    assert_eq!(bearer_token(Some("Bearer")), Err(AuthError::InvalidFormat));
    assert_eq!(bearer_token(Some("")), Err(AuthError::InvalidFormat));
}

#[test]
fn bearer_header_hands_back_the_token() {
    assert_eq!(bearer_token(Some("Bearer abc.def.ghi")), Ok("abc.def.ghi"));
    assert_eq!(bearer_token(Some("Bearer ")), Ok(""));
}

#[test]
fn resolve_without_header_is_anonymous() {
    assert_eq!(resolve(None, 0, SECRET), Ok(None));
}

#[test]
fn resolve_with_valid_token_names_the_user() {
    let now = 1_700_000_000;
    let token = issue_token_at(31, now, SECRET).expect("issuing must succeed");
    let header = format!("Bearer {}", token);
    assert_eq!(resolve(Some(&header), now, SECRET), Ok(Some(31)));
    assert_eq!(authenticate(Some(&header), now, SECRET), Ok(31));
}

#[test]
fn resolve_with_bad_token_fails_loudly() {
    // A malformed credential is never downgraded to anonymous.
    assert_eq!(resolve(Some("Bearer junk"), 0, SECRET), Err(AppError::Unauthorized));
    assert_eq!(resolve(Some("Token abc"), 0, SECRET), Err(AppError::Unauthorized));
}

#[test]
fn authenticate_requires_an_identity() {
    assert_eq!(authenticate(None, 0, SECRET), Err(AppError::Unauthorized));
}

#[test]
fn expired_token_in_header_is_rejected() {
    let now = 1_700_000_000;
    let token = issue_token_at(8, now, SECRET).expect("issuing must succeed");
    let header = format!("Bearer {}", token);
    assert_eq!(
        authenticate(Some(&header), now + 200_000, SECRET),
        Err(AppError::Unauthorized)
    );
}
