//! Core of a small micro-blogging service: password credentials, signed
//! session tokens, request authentication, and a social feed built from
//! users, posts ("tweets"), likes and follow edges.
//!
//! All state lives in an in-memory [`store::Store`]; persistence and
//! transport are left to the surrounding application. Password hashing
//! (bcrypt) and token signing (JWT) are reached through small trusted
//! wrappers; everything around them is verified.

pub mod auth;
pub mod credential;
pub mod error;
pub mod feed;
pub mod graph;
pub mod hashtag;
pub mod platform;
pub mod store;
pub mod token;

pub use error::AppError;
