use minitweet::error::AppError;
use minitweet::store::{LoginRequest, RegisterRequest, Store};
use minitweet::token::verify_jwt;

const SECRET: &str = "account-test-secret";

fn reg(username: &str, email: &str, password: &str) -> RegisterRequest {
    RegisterRequest {
        username: username.to_string(),
        email: email.to_string(),
        password: password.to_string(),
    }
}

fn login_req(email: &str, password: &str) -> LoginRequest {
    LoginRequest { email: email.to_string(), password: password.to_string() }
}

#[test]
fn register_issues_a_working_token() {
    let mut s = Store::new();
    let auth = s
        .register(&reg("alice", "alice@example.com", "wonderland"), SECRET)
        .expect("registration must succeed");
    assert_eq!(auth.user.username, "alice");
    assert_eq!(auth.user.email, "alice@example.com");
    assert_eq!(verify_jwt(&auth.token, SECRET), Ok(auth.user.id));
}

#[test]
fn duplicate_email_conflicts() {
    let mut s = Store::new();
    s.register(&reg("alice", "a@example.com", "pw1"), SECRET).expect("first registration");
    assert_eq!(
        s.register(&reg("someone", "a@example.com", "pw2"), SECRET).map(|_| ()),
        Err(AppError::Conflict)
    );
}

#[test]
fn duplicate_username_conflicts() {
    let mut s = Store::new();
    s.register(&reg("alice", "a@example.com", "pw1"), SECRET).expect("first registration");
    assert_eq!(
        s.register(&reg("alice", "b@example.com", "pw2"), SECRET).map(|_| ()),
        Err(AppError::Conflict)
    );
}

#[test]
fn login_accepts_the_right_password() {
    let mut s = Store::new();
    let created = s.register(&reg("bob", "bob@example.com", "builder"), SECRET).expect("registration");
    let auth = s.login(&login_req("bob@example.com", "builder"), SECRET).expect("login must succeed");
    assert_eq!(auth.user.id, created.user.id);
    assert_eq!(auth.user.username, "bob");
    assert_eq!(verify_jwt(&auth.token, SECRET), Ok(created.user.id));
}

#[test]
fn login_rejects_a_wrong_password() {
    let mut s = Store::new();
    s.register(&reg("bob", "bob@example.com", "builder"), SECRET).expect("registration");
    assert_eq!(
        s.login(&login_req("bob@example.com", "wrecker"), SECRET).map(|_| ()),
        Err(AppError::Unauthorized)
    );
}

#[test]
fn login_rejects_an_unknown_email_indistinguishably() {
    let s = Store::new();
    assert_eq!(
        s.login(&login_req("nobody@example.com", "anything"), SECRET).map(|_| ()),
        Err(AppError::Unauthorized)
    );
}

#[test]
fn me_returns_the_account_or_nothing() {
    let mut s = Store::new();
    let created = s.register(&reg("carol", "carol@example.com", "pw"), SECRET).expect("registration");
    let profile = s.me(created.user.id).expect("the account exists");
    assert_eq!(profile.id, created.user.id);
    assert_eq!(profile.username, "carol");
    assert_eq!(profile.email, "carol@example.com");
    assert!(s.me(12_345).is_none());
}

#[test]
fn error_messages_are_short_and_present() {
    let all = [
        AppError::ValidationError,
        AppError::Unauthorized,
        AppError::Forbidden,
        AppError::NotFound,
        AppError::Conflict,
        AppError::Internal,
    ];
    for e in all {
        assert!(!e.message().is_empty());
    }
}
