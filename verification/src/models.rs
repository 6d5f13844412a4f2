//! Shapes of the public processing API.

use vstd::prelude::*;

verus! {

/// Ask for a page to be fetched, extracted and synthesized.
pub struct ProcessRequest {
    pub url: String,
    pub selector: Option<String>,
    pub voice: Option<String>,
}

} // verus!
