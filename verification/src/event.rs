//! Lifecycle events that a transfer reports to its observer.

use crate::error::TransferError;
use vstd::prelude::*;

verus! {

/// One event in the per-file lifecycle stream.
///
/// For every file the stream is `Start` first, then zero or more
/// `Progress` events, then exactly one terminal `Complete` or `Error`.
#[derive(Clone, Copy, Debug, PartialEq, Eq, Structural)]
pub enum TransferEvent {
    /// The transfer has begun; `total` is the expected final size.
    Start { total: u64 },
    /// `written` bytes of the current attempt are on disk out of `total`.
    /// A restart reports `written == 0` to signal the reset.
    Progress { written: u64, total: u64 },
    /// The file is fully present locally.
    Complete,
    /// The transfer failed; the file's task ends here.
    Error { error: TransferError },
}

} // verus!
