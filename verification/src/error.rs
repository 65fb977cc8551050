use vstd::prelude::*;

verus! {

/// The error taxonomy of the library.
///
/// Every fallible operation reports one of these four conditions; errors from
/// collaborators surface unchanged to the caller, with no retry or recovery
/// inside the library.
#[derive(Clone, Copy, Debug, PartialEq, Eq, Structural)]
pub enum Error {
    /// A referenced feed or entry id is absent from the store.
    NotFound,
    /// The network transport failed while fetching a remote feed.
    FetchError,
    /// The remote feed body could not be parsed.
    ParseError,
    /// The record store refused the operation: it is not initialized, or a
    /// capacity bound was hit.
    StorageError,
}

} // verus!
