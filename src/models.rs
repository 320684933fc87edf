use vstd::prelude::*;

verus! {

/// The closed set of roles a principal can hold.
#[derive(Debug, Clone, Copy, PartialEq, Eq, Structural)]
pub enum Role {
    Admin,
    User,
}

/// A stored credential record, or the principal that the access check attaches.
#[derive(Debug, Clone)]
pub struct User {
    pub id: u32,
    pub email: String,
    pub first_name: String,
    pub last_name: String,
    /// The bcrypt hash of the password, never the plaintext.
    pub password: String,
    pub role: Role,
}

#[derive(Debug, Clone)]
pub struct LoginRequest {
    pub email: String,
    pub password: String,
}

#[derive(Debug, Clone)]
pub struct LoginResponse {
    pub token: String,
}

#[derive(Debug, Clone)]
pub struct RegisterRequest {
    pub first_name: String,
    pub last_name: String,
    pub email: String,
    pub password: String,
}

#[derive(Debug, Clone)]
pub struct RegisterResponse {
    pub id: u32,
    pub first_name: String,
    pub last_name: String,
    pub email: String,
    pub password: String,
}

/// The documented surface of the login and register operations.
#[derive(Debug, Clone, Copy)]
pub struct AuthApi;

} // verus!
