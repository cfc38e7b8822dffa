//! The error kinds that the library reports.

use vstd::prelude::*;

verus! {

/// Why an operation was refused or could not be completed.
#[derive(Clone, Copy, Debug, PartialEq, Eq, Structural)]
pub enum BootrError {
    /// A slot, a blob, a configuration file or a whiteout target is missing.
    NotFound,
    /// The image reference is malformed, or a layer has a media type that
    /// the client was told not to accept.
    InvalidArgument,
    /// A manifest, a configuration or a metadata record cannot be read, or
    /// a blob does not hash to its digest.
    InvalidData,
    /// The registry could not be reached or refused the request.
    Unavailable,
    /// The host already holds an installed system.
    AlreadyExists,
    /// Any other failure of the underlying filesystem.
    Io,
}

} // verus!
