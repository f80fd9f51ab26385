//! Errors of a harness run.
use vstd::prelude::*;

verus! {

/// What can stop a run before or while it serves.
#[derive(Debug, Clone, PartialEq, Eq)]
pub enum HarnessError {
    /// Binding, serving or shutting down failed.
    ServerError(String),
    /// The scenario was incomplete or inconsistent before any network activity.
    ConfigurationError(String),
    /// An I/O failure, with its description.
    IoError(String),
}

} // verus!
