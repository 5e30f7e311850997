//! Error kinds of the repair protocol.

use vstd::prelude::*;

verus! {

/// Errors that abort the repair of one file, or the whole run.
///
/// Soft conditions (not a regular file, not locked) are not errors: the
/// repair reports them as successful no-op outcomes instead.
#[derive(Clone, Copy, Debug, PartialEq, Eq, Structural)]
pub enum RepairError {
    /// The target file or directory does not exist.
    NotFound,
    /// A lock request was refused with a permission-denied condition;
    /// surfaced as a dedicated "would block" kind, distinct from plain
    /// I/O failures.
    WouldBlock,
    /// The file's name cannot be represented as text, so the
    /// temporary-artifact name cannot be built.
    NameEncoding,
    /// The target path has no parent directory to hold the replacement.
    InvalidArgument,
    /// Any other OS or filesystem failure, with its raw error code.
    Io(i32),
}

/// The error returned when a lock request would block: a permission-denied
/// answer from the lock table is mapped to this dedicated kind.
pub fn lock_error() -> (r: RepairError)
    ensures
        r == RepairError::WouldBlock,
{
    RepairError::WouldBlock
}

} // verus!
