use vstd::prelude::*;

verus! {

/// The credentials sent to log in.
#[derive(Debug)]
pub struct LoginRequest {
    pub username: String,
    pub password: String,
}

/// The backend's answer to a login.
#[derive(Debug)]
pub struct LoginResponse {
    pub ok: bool,
    pub data: Option<LoginResponseData>,
    pub message: Option<String>,
}

/// The user that logged in, and the token of the session.
#[derive(Debug)]
pub struct LoginResponseData {
    /// The user's UUID, as its 128-bit value.
    pub user_id: u128,
    pub username: String,
    pub token: LoginResponseToken,
}

/// A session token and when it expires.
#[derive(Debug)]
pub struct LoginResponseToken {
    pub token: String,
    pub expires_at: String,
}

} // verus!
