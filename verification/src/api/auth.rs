//! Email magic-link login shapes.

use vstd::prelude::*;

verus! {

/// Ask for a magic link.
pub struct LoginRequest {
    pub email: String,
}

/// Acknowledgement that the link was sent.
pub struct LoginResponse {
    pub message: String,
}

/// The token carried back from the emailed link.
pub struct VerifyQuery {
    pub token: String,
}

/// A fresh session for a verified login.
pub struct VerifyResponse {
    pub session_token: String,
    pub account_id: String,
}

/// End a session.
pub struct LogoutRequest {
    pub session_token: String,
}

} // verus!
