use vstd::prelude::*;

verus! {

/// A failure of the cache backend, with a diagnostic text.
#[derive(Debug, Clone, PartialEq, Eq)]
pub enum CacheError {
    UnknownError(String),
}

impl CacheError {
    /// The diagnostic text of the failure.
    pub fn describe(&self) -> (r: String)
        ensures
            r@ == match self {
                CacheError::UnknownError(detail) => detail@,
            },
    {
        match self {
            CacheError::UnknownError(detail) => detail.clone(),
        }
    }
}

} // verus!
