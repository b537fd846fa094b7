use vstd::prelude::*;

verus! {

/// Failure taxonomy of the acquisition pipeline.
///
/// `Network` covers connect/timeout/transport failures and unexpected HTTP
/// statuses; `Protocol` covers malformed manifests, unsupported download
/// protocol versions and short streams; `Integrity` covers hash and signature
/// mismatches; `CacheIo` covers filesystem failures around the caches;
/// `Cancelled` is the uniform cooperative-cancellation error.
#[derive(Debug, Clone, PartialEq, Eq)]
pub enum AcquireError {
    Network { detail: String },
    Protocol { detail: String },
    Integrity { expected: String, actual: String },
    CacheIo { detail: String },
    Cancelled,
}

impl AcquireError {
    /// True exactly for the cooperative-cancellation error.
    pub fn is_cancelled(&self) -> (r: bool)
        ensures
            r == (self is Cancelled),
    {
        match self {
            AcquireError::Cancelled => true,
            _ => false,
        }
    }

    /// True exactly for hash/signature mismatch errors.
    pub fn is_integrity(&self) -> (r: bool)
        ensures
            r == (self is Integrity),
    {
        match self {
            AcquireError::Integrity { .. } => true,
            _ => false,
        }
    }
}

} // verus!
