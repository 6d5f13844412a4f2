//! The email-login service. Its operations — sending the magic-link mail,
//! minting and persisting sessions — are all storage- and network-bound and
//! run in the process shell; the pure pieces they share (token hashing,
//! challenge generation, validation) live in the credential helpers.

use vstd::prelude::*;

verus! {

/// Handle for the email-login flow.
pub struct AuthService;

} // verus!
