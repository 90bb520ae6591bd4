//! The observer protocol: the capability set through which a transfer
//! reports its lifecycle, and the simple line-printing implementation.

use crate::event::TransferEvent;
use std::io::Write;
use vstd::prelude::*;

verus! {

/// Receives the lifecycle events of transfers. One implementation is
/// shared by all in-flight transfers of an invocation, so implementations
/// must tolerate concurrent calls and must not block a transfer for long.
pub trait ProgressCallback {
    /// A file's download has started; `file_size` is its expected size.
    fn on_file_start(&self, file_name: &str, file_size: u64);

    /// `downloaded` of `total` bytes of a file are on disk.
    fn on_file_progress(&self, file_name: &str, downloaded: u64, total: u64);

    /// A file finished downloading.
    fn on_file_complete(&self, file_name: &str);

    /// A file's download failed with the given description.
    fn on_file_error(&self, file_name: &str, error: &str);
}

/// The completed share of a download, as a whole percentage, clamped to
/// the representable range; zero while the total is unknown to be zero.
pub open spec fn percent_spec(downloaded: u64, total: u64) -> u32 {
    if total == 0 {
        0u32
    } else {
        let q = (downloaded as int) * 100 / (total as int);
        if q > u32::MAX {
            u32::MAX
        } else {
            q as u32
        }
    }
}

/// Computes the whole percentage that `downloaded` is of `total`.
pub fn percent_of(downloaded: u64, total: u64) -> (p: u32)
    ensures
        p == percent_spec(downloaded, total),
{
    if total == 0 {
        0
    } else {
        let q: u128 = (downloaded as u128) * 100 / (total as u128);
        if q > u32::MAX as u128 {
            u32::MAX
        } else {
            q as u32
        }
    }
}

/// Relies on std `writeln` to standard output; reporting only.
#[verifier::external_body]
fn emit_start_line(file_name: &str, file_size: u64) {
    let mut out = std::io::stdout();
    let _ = writeln!(out, "开始下载: {} (大小: {} bytes)", file_name, file_size);
}

/// Relies on std `writeln` to standard output; reporting only.
#[verifier::external_body]
fn emit_progress_line(file_name: &str, percent: u32, downloaded: u64, total: u64) {
    let mut out = std::io::stdout();
    let _ = writeln!(out, "下载中: {} - {}% ({} / {} bytes)", file_name, percent, downloaded, total);
}

/// Relies on std `writeln` to standard output; reporting only.
#[verifier::external_body]
fn emit_complete_line(file_name: &str) {
    let mut out = std::io::stdout();
    let _ = writeln!(out, "下载完成: {}", file_name);
}

/// Relies on std `writeln` to standard error; reporting only.
#[verifier::external_body]
fn emit_error_line(file_name: &str, error: &str) {
    let mut out = std::io::stderr();
    let _ = writeln!(out, "下载失败: {} - 错误: {}", file_name, error);
}

/// An observer that prints one line per event.
#[derive(Clone, Copy)]
pub struct SimpleCallback;

impl ProgressCallback for SimpleCallback {
    fn on_file_start(&self, file_name: &str, file_size: u64) {
        emit_start_line(file_name, file_size);
    }

    fn on_file_progress(&self, file_name: &str, downloaded: u64, total: u64) {
        let percent = percent_of(downloaded, total);
        emit_progress_line(file_name, percent, downloaded, total);
    }

    fn on_file_complete(&self, file_name: &str) {
        emit_complete_line(file_name);
    }

    fn on_file_error(&self, file_name: &str, error: &str) {
        emit_error_line(file_name, error);
    }
}

/// Forwards one event of a file to the observer, through the method
/// that kind of event is owed.
pub fn notify<C: ProgressCallback>(callback: &C, file_name: &str, event: &TransferEvent) {
    match event {
        TransferEvent::Start { total } => callback.on_file_start(file_name, *total),
        TransferEvent::Progress { written, total } => callback.on_file_progress(
            file_name,
            *written,
            *total,
        ),
        TransferEvent::Complete => callback.on_file_complete(file_name),
        TransferEvent::Error { error } => {
            let m = error.describe();
            callback.on_file_error(file_name, m.as_str());
        },
    }
}

/// Forwards a file's recorded events to the observer in order, as the
/// live engine reports them at the moment each occurs.
pub fn notify_all<C: ProgressCallback>(
    callback: &C,
    file_name: &str,
    events: &Vec<TransferEvent>,
) {
    let mut i: usize = 0;
    while i < events.len()
        decreases events@.len() - i,
    {
        notify(callback, file_name, &events[i]);
        i = i + 1;
    }
}

} // verus!
