//! The per-file resumable transfer: the state machine that decides whether
//! to skip, resume or restart a download, and how the local bytes and the
//! reported events evolve as the response body arrives chunk by chunk.
//!
//! The functions here are pure: the response status and body chunks come
//! in as values, the final file contents, the event stream and the result
//! come out as values. The unverified I/O layer feeds them from the real
//! network and disk; [`run_transfer`] additionally serves as the reference
//! engine that the whole per-file behaviour is specified and tested
//! against.

use crate::error::TransferError;
use crate::event::TransferEvent;
use crate::manifest::ManifestEntry;
use vstd::prelude::*;

verus! {

/// The lifecycle phase of one transfer attempt.
#[derive(Clone, Copy, Debug, PartialEq, Eq, Structural)]
pub enum TransferPhase {
    NotStarted,
    Resuming,
    Restarting,
    Streaming,
    Complete,
    Failed,
}

/// Transient per-file state, owned exclusively by the file's transfer.
///
/// `bytes_written` always equals the current length of the local file.
#[derive(Clone, Copy, Debug, PartialEq, Eq, Structural)]
pub struct TransferState {
    pub expected_size: u64,
    pub bytes_written: u64,
    pub phase: TransferPhase,
}

impl TransferState {
    /// State at the moment the local file has been opened and measured.
    pub fn begin(expected_size: u64, existing_size: u64) -> (s: Self)
        ensures
            s == (TransferState {
                expected_size,
                bytes_written: existing_size,
                phase: TransferPhase::NotStarted,
            }),
    {
        TransferState { expected_size, bytes_written: existing_size, phase: TransferPhase::NotStarted }
    }

    /// The transfer will continue from the existing bytes.
    pub fn mark_resuming(&mut self)
        ensures
            *final(self) == (TransferState { phase: TransferPhase::Resuming, ..*old(self) }),
    {
        self.phase = TransferPhase::Resuming;
    }

    /// The local file has been truncated to zero: any prior prefix is
    /// invalidated and the write cursor is back at the start.
    pub fn mark_restart(&mut self)
        ensures
            *final(self) == (TransferState {
                bytes_written: 0,
                phase: TransferPhase::Restarting,
                ..*old(self)
            }),
    {
        self.bytes_written = 0;
        self.phase = TransferPhase::Restarting;
    }

    /// One body chunk of `len` bytes has been written to the file.
    pub fn record_chunk(&mut self, len: u64)
        requires
            old(self).bytes_written + len <= u64::MAX,
        ensures
            *final(self) == (TransferState {
                bytes_written: (old(self).bytes_written + len) as u64,
                phase: TransferPhase::Streaming,
                ..*old(self)
            }),
    {
        self.bytes_written = self.bytes_written + len;
        self.phase = TransferPhase::Streaming;
    }

    /// The transfer ended successfully.
    pub fn mark_complete(&mut self)
        ensures
            *final(self) == (TransferState { phase: TransferPhase::Complete, ..*old(self) }),
    {
        self.phase = TransferPhase::Complete;
    }

    /// The transfer failed; the bytes written so far stay on disk.
    pub fn mark_failed(&mut self)
        ensures
            *final(self) == (TransferState { phase: TransferPhase::Failed, ..*old(self) }),
    {
        self.phase = TransferPhase::Failed;
    }
}

/// How the file request is issued for a local file of `existing` bytes.
#[derive(Clone, Copy, Debug, PartialEq, Eq, Structural)]
pub enum RequestPlan {
    /// The local size already equals the expected size: no request at all.
    SkipComplete,
    /// Request only the bytes from `from` to the end.
    Ranged { from: u64 },
    /// Request the whole file.
    Full,
}

/// The request owed for a local file of `existing` of `expected` bytes.
pub open spec fn plan_of(existing: u64, expected: u64) -> RequestPlan {
    if existing == expected {
        RequestPlan::SkipComplete
    } else if 0 < existing < expected {
        RequestPlan::Ranged { from: existing }
    } else {
        RequestPlan::Full
    }
}

/// Decides the request for a file whose local copy holds `existing_size`
/// of `expected_size` bytes: skip when they match, a byte-range request
/// from the existing end for a shorter local copy, a plain request
/// otherwise (no local copy, or a local copy longer than expected).
pub fn plan_request(existing_size: u64, expected_size: u64) -> (plan: RequestPlan)
    ensures
        plan == plan_of(existing_size, expected_size),
{
    if existing_size == expected_size {
        RequestPlan::SkipComplete
    } else if 0 < existing_size && existing_size < expected_size {
        RequestPlan::Ranged { from: existing_size }
    } else {
        RequestPlan::Full
    }
}

/// A full-content success status.
pub open spec fn is_success_status(status: u16) -> bool {
    200 <= status <= 299
}

/// A status the transfer may stream from: a success or partial content.
pub open spec fn status_acceptable(status: u16) -> bool {
    is_success_status(status) || status == 206
}

/// The local file must be truncated and rewritten from the start: either
/// the server ignored the range request and answered the full content, or
/// the local file is longer than the manifest claims.
pub open spec fn restart_needed(status: u16, existing: int, expected: u64) -> bool {
    (status == 200 && existing > 0) || existing > expected
}

/// What to do with the response to a file request.
#[derive(Clone, Copy, Debug, PartialEq, Eq, Structural)]
pub enum ResponseDecision {
    /// Append the body to the existing bytes.
    Stream,
    /// Truncate to zero, then stream the body from the start.
    RestartThenStream,
    /// Unusable status: fail, leaving the local bytes as they are.
    Fail,
    /// The local file is oversized, so it is truncated, but the status is
    /// unusable: fail with an empty local file.
    RestartThenFail,
}

/// What the response status dictates, given the local file's size.
pub open spec fn decision_of(status: u16, existing: int, expected: u64) -> ResponseDecision {
    if restart_needed(status, existing, expected) {
        if status_acceptable(status) {
            ResponseDecision::RestartThenStream
        } else {
            ResponseDecision::RestartThenFail
        }
    } else {
        if status_acceptable(status) {
            ResponseDecision::Stream
        } else {
            ResponseDecision::Fail
        }
    }
}

/// Inspects the response status against the local file size: truncation
/// is decided first (a full-content 200 despite existing bytes, or an
/// oversized local file), then whether the status allows streaming at
/// all.
pub fn classify_response(status: u16, existing_size: u64, expected_size: u64) -> (d:
    ResponseDecision)
    ensures
        d == decision_of(status, existing_size as int, expected_size),
{
    let restart = (status == 200 && existing_size > 0) || existing_size > expected_size;
    let acceptable = (200 <= status && status <= 299) || status == 206;
    if restart {
        if acceptable {
            ResponseDecision::RestartThenStream
        } else {
            ResponseDecision::RestartThenFail
        }
    } else {
        if acceptable {
            ResponseDecision::Stream
        } else {
            ResponseDecision::Fail
        }
    }
}

/// The byte sequences of a vector of body chunks.
pub open spec fn views_of(chunks: Seq<Vec<u8>>) -> Seq<Seq<u8>> {
    chunks.map_values(|c: Vec<u8>| c@)
}

/// Total number of bytes over all chunks.
pub open spec fn chunk_total(chunks: Seq<Seq<u8>>) -> int
    decreases chunks.len(),
{
    if chunks.len() == 0 {
        0
    } else {
        chunk_total(chunks.drop_last()) + chunks.last().len()
    }
}

/// All chunks, concatenated: the response body as one byte sequence.
pub open spec fn chunk_concat(chunks: Seq<Seq<u8>>) -> Seq<u8>
    decreases chunks.len(),
{
    if chunks.len() == 0 {
        Seq::empty()
    } else {
        chunk_concat(chunks.drop_last()) + chunks.last()
    }
}

pub proof fn lemma_chunk_total_nonneg(chunks: Seq<Seq<u8>>)
    ensures
        chunk_total(chunks) >= 0,
    decreases chunks.len(),
{
    if chunks.len() > 0 {
        lemma_chunk_total_nonneg(chunks.drop_last());
    }
}

pub proof fn lemma_chunk_total_take_le(chunks: Seq<Seq<u8>>, k: int)
    requires
        0 <= k <= chunks.len(),
    ensures
        chunk_total(chunks.take(k)) <= chunk_total(chunks),
    decreases chunks.len(),
{
    if k == chunks.len() {
        assert(chunks.take(k) =~= chunks);
    } else {
        assert(chunks.drop_last().take(k) =~= chunks.take(k));
        lemma_chunk_total_take_le(chunks.drop_last(), k);
    }
}

pub proof fn lemma_chunk_concat_len(chunks: Seq<Seq<u8>>)
    ensures
        chunk_concat(chunks).len() == chunk_total(chunks),
    decreases chunks.len(),
{
    if chunks.len() > 0 {
        lemma_chunk_concat_len(chunks.drop_last());
        lemma_chunk_total_nonneg(chunks.drop_last());
    }
}

/// The `Progress` events of one streaming attempt that started with
/// `start` bytes already on disk: one event per chunk, each reporting the
/// bytes written so far.
pub open spec fn progress_trail(start: int, expected: u64, chunks: Seq<Seq<u8>>) -> Seq<
    TransferEvent,
>
    decreases chunks.len(),
{
    if chunks.len() == 0 {
        Seq::empty()
    } else {
        progress_trail(start, expected, chunks.drop_last()).push(
            TransferEvent::Progress {
                written: (start + chunk_total(chunks)) as u64,
                total: expected,
            },
        )
    }
}

/// The local file's contents once the transfer has run: unchanged on
/// the size-match short-circuit; otherwise the body is
/// appended to the local bytes, or to an empty file after a restart, and
/// nothing is appended when the status is unusable.
pub open spec fn final_file_of(
    expected: u64,
    local: Seq<u8>,
    status: u16,
    chunks: Seq<Seq<u8>>,
) -> Seq<u8> {
    if local.len() == expected {
        local
    } else {
        let base = if restart_needed(status, local.len() as int, expected) {
            Seq::<u8>::empty()
        } else {
            local
        };
        if status_acceptable(status) {
            base + chunk_concat(chunks)
        } else {
            base
        }
    }
}

/// The exact event stream a transfer reports, start to terminal event.
pub open spec fn events_of(
    expected: u64,
    local: Seq<u8>,
    status: u16,
    chunks: Seq<Seq<u8>>,
) -> Seq<TransferEvent> {
    let start = seq![TransferEvent::Start { total: expected }];
    if local.len() == expected {
        start + seq![
            TransferEvent::Progress { written: expected, total: expected },
            TransferEvent::Complete,
        ]
    } else {
        let restart = restart_needed(status, local.len() as int, expected);
        let reset = if restart {
            seq![TransferEvent::Progress { written: 0u64, total: expected }]
        } else {
            Seq::empty()
        };
        let base_len = if restart {
            0
        } else {
            local.len() as int
        };
        if status_acceptable(status) {
            start + reset + progress_trail(base_len, expected, chunks) + seq![
                TransferEvent::Complete,
            ]
        } else {
            start + reset + seq![
                TransferEvent::Error { error: TransferError::Http { status } },
            ]
        }
    }
}

/// Whether a transfer with these inputs succeeds: either the local size
/// already matches, or the server answered with a usable status.
pub open spec fn transfer_ok(expected: u64, local_len: int, status: u16) -> bool {
    local_len == expected || status_acceptable(status)
}

/// Everything one transfer produced: the final local bytes, the state it
/// ended in, the events it reported in order, and its result.
pub struct TransferOutcome {
    pub file: Vec<u8>,
    pub state: TransferState,
    pub events: Vec<TransferEvent>,
    pub result: Result<(), TransferError>,
}

/// Runs one whole transfer against a response given as plain values: the
/// status of the file request and the body as the chunks in which it
/// arrived. `local` is the current content of the local file.
///
/// When the local size already equals `entry.expected_size`, the outcome
/// does not depend on `status` or `chunks` at all: the short-circuit
/// answers without a request.
pub fn run_transfer(
    entry: &ManifestEntry,
    local: Vec<u8>,
    status: u16,
    chunks: &Vec<Vec<u8>>,
) -> (out: TransferOutcome)
    requires
        local@.len() + chunk_total(views_of(chunks@)) <= u64::MAX,
    ensures
        out.file@ == final_file_of(entry.expected_size, local@, status, views_of(chunks@)),
        out.events@ == events_of(entry.expected_size, local@, status, views_of(chunks@)),
        out.result is Ok <==> transfer_ok(entry.expected_size, local@.len() as int, status),
        out.result matches Err(e) ==> e == (TransferError::Http { status }),
        out.state.bytes_written == out.file@.len(),
        out.state.expected_size == entry.expected_size,
        out.state.phase is Complete <==> out.result is Ok,
        out.state.phase is Failed <==> out.result is Err,
{
    let ghost cs = views_of(chunks@);
    proof {
        lemma_chunk_total_nonneg(cs);
    }
    let expected = entry.expected_size;
    let existing: u64 = local.len() as u64;
    let mut file = local;
    let mut events: Vec<TransferEvent> = Vec::new();
    let mut state = TransferState::begin(expected, existing);
    events.push(TransferEvent::Start { total: expected });

    // Short-circuit: size equality alone is the completion test; no
    // request is issued and no content is verified.
    if existing == expected {
        events.push(TransferEvent::Progress { written: expected, total: expected });
        events.push(TransferEvent::Complete);
        state.mark_complete();
        proof {
            assert(events@ =~= events_of(expected, file@, status, cs));
        }
        return TransferOutcome { file, state, events, result: Ok(()) };
    }
    let ghost local_view = file@;

    let decision = classify_response(status, existing, expected);
    let restart = matches!(
        decision,
        ResponseDecision::RestartThenStream | ResponseDecision::RestartThenFail
    );
    let acceptable = matches!(
        decision,
        ResponseDecision::Stream | ResponseDecision::RestartThenStream
    );
    if restart {
        file.clear();
        state.mark_restart();
        events.push(TransferEvent::Progress { written: 0, total: expected });
    } else if existing > 0 {
        state.mark_resuming();
    }

    if !acceptable {
        state.mark_failed();
        events.push(TransferEvent::Error { error: TransferError::Http { status } });
        proof {
            assert(events@ =~= events_of(expected, local_view, status, cs));
        }
        return TransferOutcome { file, state, events, result: Err(TransferError::Http { status }) };
    }

    let ghost base = file@;
    let ghost pre_events = events@;
    let mut i: usize = 0;
    while i < chunks.len()
        invariant
            i <= chunks@.len(),
            cs == views_of(chunks@),
            base.len() + chunk_total(cs) <= u64::MAX,
            state.expected_size == expected,
            state.bytes_written == base.len() + chunk_total(cs.take(i as int)),
            file@ == base + chunk_concat(cs.take(i as int)),
            events@ == pre_events + progress_trail(base.len() as int, expected, cs.take(i as int)),
        decreases chunks@.len() - i,
    {
        let chunk = &chunks[i];
        proof {
            assert(cs[i as int] == chunks@[i as int]@);
            assert(cs.take(i + 1).drop_last() =~= cs.take(i as int));
            assert(cs.take(i + 1).last() == cs[i as int]);
            lemma_chunk_total_take_le(cs, i + 1);
            lemma_chunk_total_nonneg(cs.take(i as int));
        }
        file.extend_from_slice(chunk.as_slice());
        state.record_chunk(chunk.len() as u64);
        events.push(TransferEvent::Progress { written: state.bytes_written, total: expected });
        i = i + 1;
    }
    proof {
        assert(cs.take(chunks@.len() as int) =~= cs);
    }
    state.mark_complete();
    events.push(TransferEvent::Complete);
    proof {
        lemma_chunk_concat_len(cs);
        assert(events@ =~= events_of(expected, local_view, status, cs));
        assert(file@ =~= final_file_of(expected, local_view, status, cs));
    }
    TransferOutcome { file, state, events, result: Ok(()) }
}

pub proof fn lemma_progress_trail_len(start: int, expected: u64, chunks: Seq<Seq<u8>>)
    ensures
        progress_trail(start, expected, chunks).len() == chunks.len(),
    decreases chunks.len(),
{
    if chunks.len() > 0 {
        lemma_progress_trail_len(start, expected, chunks.drop_last());
    }
}

/// The event for chunk `i` of a streaming attempt reports exactly the
/// bytes on disk once chunks `0..=i` are written.
pub proof fn lemma_progress_trail_index(start: int, expected: u64, chunks: Seq<Seq<u8>>, i: int)
    requires
        0 <= i < chunks.len(),
    ensures
        progress_trail(start, expected, chunks)[i] == (TransferEvent::Progress {
            written: (start + chunk_total(chunks.take(i + 1))) as u64,
            total: expected,
        }),
    decreases chunks.len(),
{
    lemma_progress_trail_len(start, expected, chunks.drop_last());
    if i == chunks.len() - 1 {
        assert(chunks.take(i + 1) =~= chunks);
    } else {
        lemma_progress_trail_index(start, expected, chunks.drop_last(), i);
        assert(chunks.drop_last().take(i + 1) =~= chunks.take(i + 1));
    }
}

pub proof fn lemma_chunk_total_take_mono(chunks: Seq<Seq<u8>>, i: int, j: int)
    requires
        0 <= i <= j <= chunks.len(),
    ensures
        chunk_total(chunks.take(i)) <= chunk_total(chunks.take(j)),
{
    assert(chunks.take(j).take(i) =~= chunks.take(i));
    lemma_chunk_total_take_le(chunks.take(j), i);
}

/// The shape every successful transfer's event stream has: `Start` first,
/// `Complete` last, only `Progress` events in between, all reporting the
/// same total, with the written counts non-decreasing.
pub open spec fn events_well_ordered(events: Seq<TransferEvent>, expected: u64) -> bool {
    &&& events.len() >= 2
    &&& events[0] == (TransferEvent::Start { total: expected })
    &&& events.last() == TransferEvent::Complete
    &&& forall|i: int|
        0 < i < events.len() - 1 ==> ((#[trigger] events[i]) matches TransferEvent::Progress {
            total,
            ..
        } && total == expected)
    &&& forall|i: int, j: int|
        0 < i <= j < events.len() - 1 ==> (#[trigger] events[i])->Progress_written <= (
        #[trigger] events[j])->Progress_written
}

/// Law: for any successful transfer the observer receives exactly one
/// `Start`, then zero or more `Progress` events whose written counts
/// never decrease within the attempt, then exactly one `Complete`, in
/// that order.
pub proof fn lemma_event_ordering(expected: u64, local: Seq<u8>, status: u16, chunks: Seq<Seq<u8>>)
    requires
        transfer_ok(expected, local.len() as int, status),
        local.len() + chunk_total(chunks) <= u64::MAX,
    ensures
        events_well_ordered(events_of(expected, local, status, chunks), expected),
{
    let events = events_of(expected, local, status, chunks);
    if local.len() == expected {
        assert(events.len() == 3);
        assert(events[1] == (TransferEvent::Progress { written: expected, total: expected }));
    } else {
        let restart = restart_needed(status, local.len() as int, expected);
        let r: int = if restart { 1 } else { 0 };
        let base_len: int = if restart { 0 } else { local.len() as int };
        let trail = progress_trail(base_len, expected, chunks);
        lemma_progress_trail_len(base_len, expected, chunks);
        assert(events.len() == 2 + r + chunks.len());
        assert forall|i: int| 0 < i < events.len() - 1 implies ((
        #[trigger] events[i]) matches TransferEvent::Progress { total, .. } && total
            == expected) by {
            if restart && i == 1 {
                assert(events[i] == (TransferEvent::Progress { written: 0u64, total: expected }));
            } else {
                let k = i - 1 - r;
                lemma_progress_trail_index(base_len, expected, chunks, k);
                assert(events[i] == trail[k]);
            }
        }
        assert forall|i: int, j: int| 0 < i <= j < events.len() - 1 implies (
        #[trigger] events[i])->Progress_written <= (#[trigger] events[j])->Progress_written by {
            lemma_chunk_total_nonneg(chunks);
            assert(chunks.take(0) =~= Seq::<Seq<u8>>::empty());
            if j - 1 - r >= 0 {
                let kj = j - 1 - r;
                lemma_progress_trail_index(base_len, expected, chunks, kj);
                lemma_chunk_total_take_mono(chunks, 0, kj + 1);
                lemma_chunk_total_take_le(chunks, kj + 1);
                assert(events[j] == trail[kj]);
                assert(0 <= base_len + chunk_total(chunks.take(kj + 1)) <= u64::MAX);
                assert(events[j]->Progress_written == base_len + chunk_total(
                    chunks.take(kj + 1),
                ));
                if i - 1 - r >= 0 {
                    let ki = i - 1 - r;
                    lemma_progress_trail_index(base_len, expected, chunks, ki);
                    lemma_chunk_total_take_mono(chunks, 0, ki + 1);
                    lemma_chunk_total_take_le(chunks, ki + 1);
                    assert(events[i] == trail[ki]);
                    assert(0 <= base_len + chunk_total(chunks.take(ki + 1)) <= u64::MAX);
                    assert(events[i]->Progress_written == base_len + chunk_total(
                        chunks.take(ki + 1),
                    ));
                    lemma_chunk_total_take_mono(chunks, ki + 1, kj + 1);
                } else {
                    assert(events[i] == (TransferEvent::Progress {
                        written: 0u64,
                        total: expected,
                    }));
                }
            } else {
                assert(events[i] == (TransferEvent::Progress { written: 0u64, total: expected }));
                assert(events[j] == (TransferEvent::Progress { written: 0u64, total: expected }));
            }
        }
    }
}

/// Law: the edge-case policy, row by row. A size match skips the network
/// entirely; a shorter local file asks for a range and resumes when the
/// server honors it, but restarts when the server answers the full
/// content; an oversized local file restarts whatever usable status
/// comes back; an unusable status fails, with no retry.
pub proof fn lemma_edge_case_policy(existing: u64, expected: u64, status: u16)
    ensures
        existing == expected ==> plan_of(existing, expected) is SkipComplete,
        0 < existing < expected ==> plan_of(existing, expected) == (RequestPlan::Ranged {
            from: existing,
        }),
        0 < existing < expected && status == 206 ==> decision_of(
            status,
            existing as int,
            expected,
        ) is Stream,
        0 < existing < expected && status == 200 ==> decision_of(
            status,
            existing as int,
            expected,
        ) is RestartThenStream,
        existing > expected && status_acceptable(status) ==> decision_of(
            status,
            existing as int,
            expected,
        ) is RestartThenStream,
        !status_acceptable(status) && existing != expected ==> !transfer_ok(
            expected,
            existing as int,
            status,
        ) && (decision_of(status, existing as int, expected) is Fail || decision_of(
            status,
            existing as int,
            expected,
        ) is RestartThenFail),
{
}

/// Law: against an already fully downloaded destination the transfer
/// leaves the file untouched and reports `Start`, one full `Progress`,
/// `Complete` — whatever the response values are, since none is needed.
pub proof fn lemma_idempotent_short_circuit(
    expected: u64,
    local: Seq<u8>,
    status: u16,
    chunks: Seq<Seq<u8>>,
)
    requires
        local.len() == expected,
    ensures
        final_file_of(expected, local, status, chunks) == local,
        transfer_ok(expected, local.len() as int, status),
        events_of(expected, local, status, chunks) =~= seq![
            TransferEvent::Start { total: expected },
            TransferEvent::Progress { written: expected, total: expected },
            TransferEvent::Complete,
        ],
{
}

/// Law: once a transfer has brought the file to its expected length,
/// running the engine again is a pure short-circuit: the bytes stay
/// exactly as they are and only the fixed skip report is emitted,
/// whatever the second response would have held — no request is needed.
pub proof fn lemma_rerun_after_success(
    expected: u64,
    local: Seq<u8>,
    status: u16,
    chunks: Seq<Seq<u8>>,
    second_status: u16,
    second_chunks: Seq<Seq<u8>>,
)
    requires
        final_file_of(expected, local, status, chunks).len() == expected,
    ensures
        final_file_of(
            expected,
            final_file_of(expected, local, status, chunks),
            second_status,
            second_chunks,
        ) == final_file_of(expected, local, status, chunks),
        events_of(
            expected,
            final_file_of(expected, local, status, chunks),
            second_status,
            second_chunks,
        ) =~= seq![
            TransferEvent::Start { total: expected },
            TransferEvent::Progress { written: expected, total: expected },
            TransferEvent::Complete,
        ],
{
    lemma_idempotent_short_circuit(
        expected,
        final_file_of(expected, local, status, chunks),
        second_status,
        second_chunks,
    );
}

/// Law: a server that honors the range request (partial content) makes
/// the transfer append the body after the existing bytes: offsets below
/// the old length are untouched, and a body of exactly the missing length
/// brings the file to the expected size.
pub proof fn lemma_resume_extends_prefix(expected: u64, local: Seq<u8>, chunks: Seq<Seq<u8>>)
    requires
        0 < local.len() < expected,
    ensures
        final_file_of(expected, local, 206, chunks) == local + chunk_concat(chunks),
        final_file_of(expected, local, 206, chunks).take(local.len() as int) == local,
        chunk_concat(chunks).len() == expected - local.len() ==> final_file_of(
            expected,
            local,
            206,
            chunks,
        ).len() == expected,
{
    assert((local + chunk_concat(chunks)).take(local.len() as int) =~= local);
}

/// Law: a server that ignores the range request and answers the full
/// content with a 200 makes the transfer truncate first: the final file
/// is the body alone, written from offset zero, and the reset is
/// signalled by a `Progress` of zero right after `Start`.
pub proof fn lemma_restart_rewrites(expected: u64, local: Seq<u8>, chunks: Seq<Seq<u8>>)
    requires
        0 < local.len() < expected,
    ensures
        final_file_of(expected, local, 200, chunks) =~= chunk_concat(chunks),
        events_of(expected, local, 200, chunks)[1] == (TransferEvent::Progress {
            written: 0u64,
            total: expected,
        }),
        chunk_concat(chunks).len() == expected ==> final_file_of(
            expected,
            local,
            200,
            chunks,
        ).len() == expected,
{
}

/// Law: a local file longer than the manifest claims is truncated to
/// zero and rewritten in full, whatever usable status the server answers.
pub proof fn lemma_oversize_truncates(
    expected: u64,
    local: Seq<u8>,
    status: u16,
    chunks: Seq<Seq<u8>>,
)
    requires
        local.len() > expected,
        status_acceptable(status),
    ensures
        final_file_of(expected, local, status, chunks) =~= chunk_concat(chunks),
        events_of(expected, local, status, chunks)[1] == (TransferEvent::Progress {
            written: 0u64,
            total: expected,
        }),
        chunk_concat(chunks).len() == expected ==> final_file_of(
            expected,
            local,
            status,
            chunks,
        ).len() == expected,
{
}

} // verus!

