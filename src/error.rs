use vstd::prelude::*;

verus! {

/// The kinds of failure that the demultiplexer reports.
#[derive(Debug, Clone, Copy, PartialEq, Eq, Structural)]
pub enum ErrorKind {
    /// The input ended in the middle of a structure.
    Truncated,
    /// A packet did not start with the sync byte.
    SyncByteMismatch,
    /// A structural or semantic violation: reserved bits, lengths, checksum, unknown codes.
    InvalidInput,
    /// Well formed, but outside the supported subset.
    Unsupported,
    /// A continuity counter broke the modulo-16 rule for its PID.
    ContinuityError,
}

/// Result of the demultiplexer's operations.
pub type Result<T> = core::result::Result<T, ErrorKind>;

} // verus!
