//! Where synthesized audio is stored.

use vstd::prelude::*;

use crate::crypto::lower_of;
use crate::crypto::lowercase;
use crate::crypto::str_eq;

verus! {

/// The configured storage backend.
#[derive(Debug, Clone, Copy, PartialEq, Eq, Structural)]
pub enum StorageBackend {
    Minio,
    Ipfs,
}

/// The backend a configuration name selects; anything but "ipfs" (in any
/// case) falls back to the object store.
pub open spec fn backend_of(name: Seq<char>) -> StorageBackend {
    if lower_of(name) == "ipfs"@ {
        StorageBackend::Ipfs
    } else {
        StorageBackend::Minio
    }
}

impl StorageBackend {
    /// Select a backend by its configured name.
    pub fn from_name(name: &str) -> (r: StorageBackend)
        ensures
            r == backend_of(name@),
    {
        let lowered = lowercase(name);
        if str_eq(lowered.as_str(), "ipfs") {
            StorageBackend::Ipfs
        } else {
            StorageBackend::Minio
        }
    }
}

} // verus!
