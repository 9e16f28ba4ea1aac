//! The error taxonomy shared by every operation of the library.

use vstd::prelude::*;

verus! {

/// Typed errors surfaced to the transport layer, which maps them to
/// response codes.
#[derive(Clone, Copy, Debug, PartialEq, Eq, Structural)]
pub enum AppError {
    /// Malformed input the caller can correct: a body of the wrong
    /// length, a self-follow.
    ValidationError,
    /// No valid identity was presented: a missing, malformed or expired
    /// token, or a wrong credential at login.
    Unauthorized,
    /// The caller is authenticated but not permitted, e.g. deleting
    /// another user's content.
    Forbidden,
    /// The referenced entity does not exist.
    NotFound,
    /// A uniqueness rule was hit: a duplicate like, follow edge, email
    /// or username.
    Conflict,
    /// A hashing, signing or storage failure; carries no detail.
    Internal,
}

impl AppError {
    /// A short description, for logs and response bodies.
    pub fn message(&self) -> (r: &'static str)
        ensures
            r@.len() > 0,
    {
        proof {
            reveal_strlit("validation error");
            reveal_strlit("unauthorized");
            reveal_strlit("forbidden");
            reveal_strlit("not found");
            reveal_strlit("conflict");
            reveal_strlit("internal error");
        }
        match self {
            AppError::ValidationError => "validation error",
            AppError::Unauthorized => "unauthorized",
            AppError::Forbidden => "forbidden",
            AppError::NotFound => "not found",
            AppError::Conflict => "conflict",
            AppError::Internal => "internal error",
        }
    }
}

} // verus!
