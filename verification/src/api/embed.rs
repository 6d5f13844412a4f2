//! Embedded-player speech request shapes.

use vstd::prelude::*;

verus! {

/// A synthesis request signed with a site's embed secret.
pub struct EmbedTtsRequest {
    pub text: String,
    pub voice: Option<String>,
    pub sig: String,
}

/// The queued job for an embed request.
pub struct EmbedTtsResponse {
    pub job_id: String,
    pub status: String,
}

/// A synthesis request signed with a user's own key.
pub struct UserEmbedRequest {
    pub text: String,
    pub voice: Option<String>,
    pub user: String,
    pub sig: String,
}

/// Poll a job's status.
pub struct StatusQuery {
    pub job_id: String,
}

/// Check a domain's embed signature.
pub struct VerifyQuery {
    pub domain: String,
    pub sig: String,
}

} // verus!
