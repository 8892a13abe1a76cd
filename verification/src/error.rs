//! The error taxonomy of the update engine.
//!
//! No failure is swallowed inside the engine: everything a data source or the
//! store reports comes back to the caller of `update` as one of these.

use vstd::prelude::*;

verus! {

#[derive(Debug)]
pub enum UpdateError {
    /// The ledger behind a data source could not be read.  The chart's
    /// checkpoint is left unchanged, so a later call retries the same span.
    SourceUnavailable,
    /// Writing the series to the store failed.  The upsert is atomic, so no
    /// partial batch is left behind.
    PersistenceFailure,
    /// No chart of this name is registered.  A caller error, not transient.
    NotFound(String),
    /// A query-construction or validation failure that needs caller
    /// correction, such as a malformed identifier or pagination input.
    Internal(String),
}

impl UpdateError {
    /// A short name for the error kind, for callers that only log it.
    pub fn kind_name(&self) -> (r: &'static str)
        ensures
            self is SourceUnavailable ==> r@ == "source unavailable"@,
            self is PersistenceFailure ==> r@ == "persistence failure"@,
            self is NotFound ==> r@ == "not found"@,
            self is Internal ==> r@ == "internal"@,
    {
        match self {
            UpdateError::SourceUnavailable => "source unavailable",
            UpdateError::PersistenceFailure => "persistence failure",
            UpdateError::NotFound(_) => "not found",
            UpdateError::Internal(_) => "internal",
        }
    }
}

} // verus!
