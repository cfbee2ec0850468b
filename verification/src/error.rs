//! Errors of the core library.

use vstd::prelude::*;

verus! {

/// Error types for the core library.
#[derive(Debug, Clone, PartialEq, Eq)]
pub enum Error {
    /// Project error
    Project(String),
    /// Track not found
    TrackNotFound(u128),
    /// Invalid state
    InvalidState(String),
    /// IO error
    Io(String),
    /// Serialization error
    Serialization(String),
    /// Any other error
    Other(String),
}

} // verus!
