//! Typed errors surfaced by the service's operations.

use vstd::prelude::*;

verus! {

/// Error taxonomy of the service. Invariant violations (duplicate credit,
/// rotation past the cap) surface as `InvalidRequest` with a message; internal
/// failures surface as `Internal` without leaking storage details.
#[derive(Debug)]
pub enum ApiError {
    InvalidApiKey,
    InsufficientBalance,
    FreeTierLimitExceeded { remaining: i32, limit: i32 },
    InvalidUrl,
    ContentTooLarge,
    ProcessingFailed,
    NotFound,
    Unauthorized,
    InvalidCredentials,
    RateLimited,
    InternalError,
    Internal(String),
    InvalidRequestError,
    InvalidRequest(String),
    AddressLimitExceeded(String),
    QuotaExceeded,
}

impl ApiError {
    /// Short message for each variant, for callers that render errors.
    pub fn message(&self) -> (r: String)
        ensures
            self is InvalidRequest ==> r@ == self->InvalidRequest_0@,
            self is AddressLimitExceeded ==> r@ == self->AddressLimitExceeded_0@,
            self is Internal ==> r@ == self->Internal_0@,
    {
        match self {
            ApiError::InvalidApiKey => "Invalid API key".to_owned(),
            ApiError::InsufficientBalance => "Insufficient balance".to_owned(),
            ApiError::FreeTierLimitExceeded { .. } => "Free tier limit exceeded".to_owned(),
            ApiError::InvalidUrl => "Invalid URL".to_owned(),
            ApiError::ContentTooLarge => "Content too large".to_owned(),
            ApiError::ProcessingFailed => "Processing failed".to_owned(),
            ApiError::NotFound => "Not found".to_owned(),
            ApiError::Unauthorized => "Unauthorized".to_owned(),
            ApiError::InvalidCredentials => "Invalid credentials".to_owned(),
            ApiError::RateLimited => "Rate limited - please try again later".to_owned(),
            ApiError::InternalError => "Internal error".to_owned(),
            ApiError::Internal(m) => m.clone(),
            ApiError::InvalidRequestError => "Invalid request".to_owned(),
            ApiError::InvalidRequest(m) => m.clone(),
            ApiError::AddressLimitExceeded(m) => m.clone(),
            ApiError::QuotaExceeded => "Storage quota exceeded".to_owned(),
        }
    }
}

} // verus!
