//! A resumable, concurrent, observable download engine.
//!
//! The library holds the decision logic of the engine: which request to
//! issue for a partially present file, when to resume, restart or skip,
//! how the local bytes and the reported events evolve chunk by chunk, and
//! how per-file outcomes are aggregated. The surrounding I/O (HTTP, disk,
//! task spawning) lives outside the library and consults these functions.

pub mod error;
pub mod event;
pub mod manifest;
pub mod observer;
pub mod registry;
pub mod scheduler;
pub mod transfer;

pub use crate::error::{DownloadError, TransferError};
pub use crate::event::TransferEvent;
pub use crate::manifest::{EntryKind, ManifestEntry};
pub use crate::observer::{ProgressCallback, SimpleCallback};
pub use crate::scheduler::{FileJob, ModelScope};
pub use crate::transfer::{
    RequestPlan, ResponseDecision, TransferOutcome, TransferPhase, TransferState,
};
