//! The kinds of failure that a run distinguishes.

use vstd::prelude::*;

verus! {

/// What went wrong, whichever operation it went wrong in.
#[derive(Clone, Copy, Debug, PartialEq, Eq, Structural)]
pub enum ErrorKind {
    /// The hosting service or the remote could not be reached or refused.
    Transport,
    /// A listing's payload could not be decoded.
    Decode,
    /// A local directory exists and is no valid clone.
    Validation,
    /// Fetched history cannot be merged without rewriting local history.
    MergeConflict,
    /// A directory could not be removed or created.
    Filesystem,
}

} // verus!
