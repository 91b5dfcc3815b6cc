//! The kinds of failure that the engine tells apart.

use vstd::prelude::*;

verus! {

/// What kind of failure an error is.
#[derive(Debug, Clone, Copy, PartialEq, Eq, Structural)]
pub enum ErrorKind {
    /// An argument that the operation cannot work on: a length that does
    /// not fit, a prefix length of zero, a malformed identifier.
    InvalidArgument,
    /// No document has the identifier that was asked for.
    NotFound,
    /// The store cannot be opened, or its handle is lost.
    StorageUnavailable,
    /// The store holds a document without all of its vectors, or vectors
    /// without their document.
    StorageCorrupt,
    /// The vectors offered for insertion do not have the store's dimensions.
    DimensionMismatch,
    /// The caller called the operation off, or its deadline passed.
    Cancelled,
}

} // verus!
