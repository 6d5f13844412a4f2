//! Key-based login shapes.

use vstd::prelude::*;

verus! {

/// Probe whether an identifier is free.
pub struct CheckIdentifierRequest {
    pub identifier: String,
}

/// Availability and the public key the identifier would derive.
pub struct CheckIdentifierResponse {
    pub available: bool,
    pub public_key: String,
}

/// Register an identifier.
pub struct RegisterKeyRequest {
    pub identifier: String,
}

/// Begin key-based login.
pub struct StartKeyLoginRequest {
    pub identifier: String,
}

/// The challenge to sign.
pub struct ChallengeResponse {
    pub challenge: String,
}

/// Finish key-based login with the signed challenge.
pub struct CompleteKeyLoginRequest {
    pub identifier: String,
    pub challenge: String,
    pub signature: String,
}

/// Ask for a magic link by email.
pub struct RequestMagicLinkRequest {
    pub email: String,
}

/// A plain acknowledgement.
pub struct MessageResponse {
    pub message: String,
}

/// The emailed token to verify.
pub struct VerifyMagicLinkRequest {
    pub token: String,
}

/// Look up the session behind a token.
pub struct SessionRequest {
    pub token: String,
}

} // verus!
