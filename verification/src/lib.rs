//! A sequence-ordered synchronization and aggregation engine for build
//! metadata: it records build-status badges and per-user review state keyed
//! by source-control (stream, project) and changelist, assigns every write a
//! strictly increasing sequence number from one shared counter, and folds
//! the recorded rows into per-changelist aggregate records so that clients
//! can poll for only what changed since their last cursor.
//!
//! Every operation is specified against a mathematical model of the store
//! ([`store::StoreModel`]) and verified: project paths fold to lowercase so
//! identity is case-insensitive ([`paths`]), writes preserve the store's
//! well-formedness ([`store::wf`]), queries are a pure function of the store
//! and the normalized parameters ([`query::query_spec`]), and the laws
//! relating them — round trip, merge, cursor monotonicity, case
//! insensitivity — are proved in [`laws`].

pub mod laws;
pub mod models;
pub mod paths;
pub mod query;
pub mod store;

use vstd::prelude::*;

verus! {

/// Errors surfaced by the metadata engine.
#[derive(Clone, Copy, Debug, PartialEq, Eq, Structural)]
pub enum AppError {
    /// The supplied project path is not of the form `//<domain>/<stream>/<project>`.
    InvalidProjectPath,
    /// A stored value could not be decoded (data-integrity failure).
    StorageError,
}

impl AppError {
    /// Whether this error reports a malformed project path.
    pub fn is_invalid_project_path(&self) -> (r: bool)
        ensures
            r == (*self == AppError::InvalidProjectPath),
    {
        match self {
            AppError::InvalidProjectPath => true,
            AppError::StorageError => false,
        }
    }
}

} // verus!
