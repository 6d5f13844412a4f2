//! Encrypted-vault upload shapes.

use vstd::prelude::*;

verus! {

/// Content type assumed for uploads that name none.
pub fn default_content_type() -> (r: String)
    ensures
        r@ == "application/octet-stream"@,
{
    "application/octet-stream".to_owned()
}

} // verus!
