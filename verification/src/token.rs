//! Session tokens: compact signed tokens carrying a user identifier and
//! an expiry instant. A token is valid purely by signature and expiry;
//! there is no revocation list.

use vstd::prelude::*;

use crate::error::AppError;

verus! {

/// How long an issued token stays valid, in seconds: 24 hours.
pub const TOKEN_LIFETIME_SECONDS: u64 = 86400;

/// The claims that signature verification recovers from a token under a
/// given signing secret: `Some((user_id, expiry))` when the signature and
/// payload check out, `None` otherwise. Verification is deterministic in
/// the token and the secret (expiry is checked separately, by
/// [`verify_token_at`]).
pub uninterp spec fn token_claims(token: Seq<char>, secret: Seq<char>) -> Option<(u128, u64)>;

/// Whether a token is valid at instant `now` under `secret`: its
/// signature recovers claims whose expiry lies strictly in the future.
pub open spec fn token_accepted(token: Seq<char>, now: u64, secret: Seq<char>) -> bool {
    match token_claims(token, secret) {
        Some((user_id, expiry)) => now < expiry,
        None => false,
    }
}

/// Sign `{user_id, exp}` into a compact token.
///
/// Relies on jsonwebtoken::encode with the HS256 default header: the
/// produced token is exactly what jsonwebtoken::decode under the same
/// secret accepts and decodes back to these claims.
#[verifier::external_body]
fn jwt_encode(user_id: u128, expiry: u64, secret: &str) -> (r: Result<String, AppError>)
    ensures
        match r {
            Ok(token) => token_claims(token@, secret@) == Some((user_id, expiry)),
            Err(e) => e == AppError::Internal,
        },
{
    let mut claims = serde_json::Map::new();
    let id_text = format!("{:032x}", user_id);
    claims.insert("user_id".to_string(), serde_json::Value::String(id_text));
    claims.insert("exp".to_string(), serde_json::Value::Number(expiry.into()));
    jsonwebtoken::encode(
        &jsonwebtoken::Header::default(),
        &serde_json::Value::Object(claims),
        &jsonwebtoken::EncodingKey::from_secret(secret.as_bytes()),
    )
    .map_err(|_| AppError::Internal)
}

/// Check a token's signature and recover its claims; the expiry claim is
/// returned, not judged against a clock.
///
/// Relies on jsonwebtoken::decode restricted to HS256 with expiry
/// validation switched off, which makes it a deterministic function of
/// the token and the secret: it returns the embedded claims exactly when
/// the signature over them verifies, and errs on any malformed or
/// tampered token.
#[verifier::external_body]
fn jwt_decode(token: &str, secret: &str) -> (r: Result<(u128, u64), AppError>)
    ensures
        match r {
            Ok(claims) => token_claims(token@, secret@) == Some((claims.0, claims.1)),
            Err(e) => token_claims(token@, secret@) is None && e == AppError::Unauthorized,
        },
{
    let mut validation = jsonwebtoken::Validation::new(jsonwebtoken::Algorithm::HS256);
    validation.validate_exp = false;
    let key = jsonwebtoken::DecodingKey::from_secret(secret.as_bytes());
    let data = jsonwebtoken::decode::<serde_json::Value>(token, &key, &validation)
        .map_err(|_| AppError::Unauthorized)?;
    let user_id = data
        .claims
        .get("user_id")
        .and_then(|v| v.as_str())
        .and_then(|s| u128::from_str_radix(s, 16).ok())
        .ok_or(AppError::Unauthorized)?;
    let expiry = data.claims.get("exp").and_then(|v| v.as_u64()).ok_or(AppError::Unauthorized)?;
    Ok((user_id, expiry))
}

/// Issue a token for `user_id` at instant `now`, expiring exactly
/// [`TOKEN_LIFETIME_SECONDS`] later.
pub fn issue_token_at(user_id: u128, now: u64, secret: &str) -> (r: Result<String, AppError>)
    ensures
        r matches Ok(token) ==> token_claims(token@, secret@) == Some(
            (user_id, (now + TOKEN_LIFETIME_SECONDS) as u64),
        ),
        r is Err ==> r == Err::<String, AppError>(AppError::Internal),
{
    match now.checked_add(TOKEN_LIFETIME_SECONDS) {
        Some(expiry) => jwt_encode(user_id, expiry, secret),
        None => Err(AppError::Internal),
    }
}

/// Verify a token at instant `now`: accepted exactly when its signature
/// recovers claims under `secret` whose expiry is still in the future.
pub fn verify_token_at(token: &str, now: u64, secret: &str) -> (r: Result<u128, AppError>)
    ensures
        r matches Ok(user_id) ==> token_claims(token@, secret@) matches Some(claims)
            && claims.0 == user_id && now < claims.1,
        r is Ok <==> token_accepted(token@, now, secret@),
        r is Err ==> r == Err::<u128, AppError>(AppError::Unauthorized),
{
    let (user_id, expiry) = jwt_decode(token, secret)?;
    if now < expiry {
        Ok(user_id)
    } else {
        Err(AppError::Unauthorized)
    }
}

/// Issue a token for `user_id` expiring 24 hours from now, on the
/// process clock.
pub fn create_jwt(user_id: u128, secret: &str) -> (r: Result<String, AppError>)
    ensures
        r matches Ok(token) ==> exists|expiry: u64|
            token_claims(token@, secret@) == Some((user_id, expiry)),
        r is Err ==> r == Err::<String, AppError>(AppError::Internal),
{
    let now = crate::platform::now_ts();
    if now > u64::MAX - TOKEN_LIFETIME_SECONDS {
        return Err(AppError::Internal);
    }
    issue_token_at(user_id, now, secret)
}

/// Verify a token against the process clock and hand back the user it
/// names.
pub fn verify_jwt(token: &str, secret: &str) -> (r: Result<u128, AppError>)
    ensures
        r matches Ok(user_id) ==> exists|expiry: u64|
            token_claims(token@, secret@) == Some((user_id, expiry)),
        r is Err ==> r == Err::<u128, AppError>(AppError::Unauthorized),
{
    let now = crate::platform::now_ts();
    verify_token_at(token, now, secret)
}

/// A token whose signature recovers expiry `expiry` is accepted strictly
/// before that instant and rejected from it on; in particular a token
/// issued at `now` is accepted throughout `now <= t < now + lifetime`
/// and rejected once the expiry instant has passed.
pub proof fn lemma_token_acceptance_window(
    token: Seq<char>,
    secret: Seq<char>,
    user_id: u128,
    expiry: u64,
    at: u64,
)
    requires
        token_claims(token, secret) == Some((user_id, expiry)),
    ensures
        token_accepted(token, at, secret) <==> at < expiry,
{
}

} // verus!
