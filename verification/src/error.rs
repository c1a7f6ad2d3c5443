use vstd::prelude::*;

verus! {

/// Why a run was aborted.
#[derive(Debug, Clone, Copy, PartialEq, Eq, Structural)]
pub enum SyncError {
    /// A path vanished, or is neither a regular file nor a directory.
    NotFound,
    /// A path does not lie under the root it was expected under.
    InvalidPath,
    /// The copy primitive reported a failure.
    CopyFailed,
    /// Source and target roots coincide, or the fallback policy cannot
    /// reach a decision by itself.
    ConfigurationError,
}

} // verus!
