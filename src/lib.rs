//! Credential issuance and session verification: password hashing, signed
//! session tokens, and the policy that turns a bearer token into a principal.

pub mod models;
pub mod text;
pub mod codec;
pub mod token;
pub mod hasher;
pub mod config;
pub mod session;
pub mod access;
