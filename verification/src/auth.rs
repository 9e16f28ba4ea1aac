//! Request authentication: extracting a bearer credential from an
//! `Authorization` header value and resolving it to a user identity.

use vstd::prelude::*;

use crate::error::AppError;
use crate::token::{token_accepted, token_claims, verify_token_at};
use vstd::string::StrSliceExecFns;

verus! {

/// Why a header value yielded no bearer credential.
#[derive(Clone, Copy, Debug, PartialEq, Eq, Structural)]
pub enum AuthError {
    /// No `Authorization` header was supplied.
    MissingHeader,
    /// The header does not carry a `Bearer ` credential.
    InvalidFormat,
}

/// The characters every bearer header value starts with.
pub open spec fn spec_bearer_prefix() -> Seq<char> {
    seq!['B', 'e', 'a', 'r', 'e', 'r', ' ']
}

/// Whether a header value is shaped `Bearer <token>`.
pub open spec fn has_bearer_prefix(s: Seq<char>) -> bool {
    s.len() >= 7 && s.subrange(0, 7) == spec_bearer_prefix()
}

/// Extract the bearer credential from an `Authorization` header value,
/// handed over verbatim by the transport layer.
pub fn bearer_token<'a>(header: Option<&'a str>) -> (r: Result<&'a str, AuthError>)
    ensures
        match r {
            Ok(token) => header matches Some(h) && has_bearer_prefix(h@) && token@ == h@.skip(7),
            Err(e) => match header {
                None => e == AuthError::MissingHeader,
                Some(h) => e == AuthError::InvalidFormat && !has_bearer_prefix(h@),
            },
        },
{
    match header {
        None => Err(AuthError::MissingHeader),
        Some(h) => {
            let n = h.unicode_len();
            if n < 7 {
                assert(!has_bearer_prefix(h@));
                return Err(AuthError::InvalidFormat);
            }
            let is_bearer = h.get_char(0) == 'B' && h.get_char(1) == 'e' && h.get_char(2) == 'a'
                && h.get_char(3) == 'r' && h.get_char(4) == 'e' && h.get_char(5) == 'r'
                && h.get_char(6) == ' ';
            if is_bearer {
                proof {
                    assert(h@.subrange(0, 7) =~= spec_bearer_prefix());
                }
                let token = h.substring_char(7, n);
                proof {
                    assert(token@ =~= h@.skip(7));
                }
                Ok(token)
            } else {
                proof {
                    assert(!has_bearer_prefix(h@)) by {
                        if h@.subrange(0, 7) == spec_bearer_prefix() {
                            assert(forall|i: int|
                                0 <= i < 7 ==> h@[i] == #[trigger] h@.subrange(0, 7)[i]);
                        }
                    }
                }
                Err(AuthError::InvalidFormat)
            }
        },
    }
}

/// Resolve the viewer identity a request carries, if any: an absent
/// header is anonymous, while a present but malformed or expired
/// credential is an explicit failure, never silently downgraded.
pub fn resolve(header: Option<&str>, now: u64, secret: &str) -> (r: Result<
    Option<u128>,
    AppError,
>)
    ensures
        match r {
            Ok(viewer) => match viewer {
                None => header is None,
                Some(user_id) => header matches Some(h) && has_bearer_prefix(h@)
                    && token_accepted(h@.skip(7), now, secret@) && (token_claims(
                    h@.skip(7),
                    secret@,
                ) matches Some(claims) && claims.0 == user_id),
            },
            Err(e) => e == AppError::Unauthorized && (header matches Some(h) && (
            !has_bearer_prefix(h@) || !token_accepted(h@.skip(7), now, secret@))),
        },
{
    match bearer_token(header) {
        Ok(token) => {
            let user_id = verify_token_at(token, now, secret)?;
            Ok(Some(user_id))
        },
        Err(AuthError::MissingHeader) => Ok(None),
        Err(AuthError::InvalidFormat) => Err(AppError::Unauthorized),
    }
}

/// Resolve the viewer identity and demand one: used by every mutating
/// operation.
pub fn authenticate(header: Option<&str>, now: u64, secret: &str) -> (r: Result<u128, AppError>)
    ensures
        match r {
            Ok(user_id) => header matches Some(h) && has_bearer_prefix(h@) && token_accepted(
                h@.skip(7),
                now,
                secret@,
            ) && (token_claims(h@.skip(7), secret@) matches Some(claims) && claims.0 == user_id),
            Err(e) => e == AppError::Unauthorized && (header is None || (header matches Some(h)
                && (!has_bearer_prefix(h@) || !token_accepted(h@.skip(7), now, secret@)))),
        },
{
    match resolve(header, now, secret)? {
        Some(user_id) => Ok(user_id),
        None => Err(AppError::Unauthorized),
    }
}

} // verus!
