//! The transfer engine's accounting core.  The chunked I/O loop suspends on
//! reads and writes; what it decides at every chunk boundary — how the byte
//! counter advances, which event is emitted, when the stream is over — is the
//! state machine here.  The loop feeds it one observation per boundary: a
//! moved chunk, end of stream, the cancellation signal, or an I/O failure.

use vstd::prelude::*;

verus! {

use crate::transfers::TransferDirection;

/// The chunk size of the streaming loops.
pub const TRANSFER_CHUNK_SIZE: usize = 65536;

/// One event of a transfer's stream: progress after every chunk, then exactly
/// one terminal Complete or Error.
#[derive(Clone, Debug)]
pub enum TransferEvent {
    Progress { bytes_transferred: u64, total_bytes: u64, filename: String },
    Complete { filename: String },
    Error { filename: String, message: String },
}

/// What the transfer loop observed at one chunk boundary.
#[derive(Debug)]
pub enum TransferObs {
    /// This many bytes were read from the source and written to the
    /// destination.
    Chunk(u64),
    /// The source is exhausted and the destination artifact flushed.
    Eof,
    /// The cancellation signal won the race against the next read.
    Cancelled,
    /// An I/O step failed, with its stage-labeled message.
    Failed(String),
}

/// The phase of a transfer.
#[derive(Clone, Copy, Debug, PartialEq, Eq, Structural)]
pub enum TransferPhase {
    Running,
    Completed,
    Failed,
}

/// The accounting state of one in-flight transfer.
pub struct TransferState {
    filename: String,
    total_bytes: u64,
    bytes_transferred: u64,
    phase: TransferPhase,
}

/// The mathematical shape of a `TransferState`.
pub struct TransferStateView {
    pub filename: Seq<char>,
    pub total_bytes: u64,
    pub bytes_transferred: u64,
    pub phase: TransferPhase,
}

impl View for TransferState {
    type V = TransferStateView;

    closed spec fn view(&self) -> TransferStateView {
        TransferStateView {
            filename: self.filename@,
            total_bytes: self.total_bytes,
            bytes_transferred: self.bytes_transferred,
            phase: self.phase,
        }
    }
}

/// The transition made on one observation: a chunk advances the byte counter,
/// end of stream completes the transfer, cancellation and failure fail it.
pub open spec fn next_state(s: TransferStateView, obs: TransferObs) -> TransferStateView {
    match obs {
        TransferObs::Chunk(n) => TransferStateView {
            bytes_transferred: (s.bytes_transferred + n) as u64,
            ..s
        },
        TransferObs::Eof => TransferStateView { phase: TransferPhase::Completed, ..s },
        TransferObs::Cancelled => TransferStateView { phase: TransferPhase::Failed, ..s },
        TransferObs::Failed(_) => TransferStateView { phase: TransferPhase::Failed, ..s },
    }
}

impl TransferState {
    /// A transfer begun after the source was stat-ed: nothing moved yet, the
    /// reported size kept only for the progress ratio.
    pub fn begin(filename: String, total_bytes: u64) -> (st: Self)
        ensures
            st@.phase == TransferPhase::Running,
            st@.bytes_transferred == 0,
            st@.total_bytes == total_bytes,
            st@.filename == filename@,
    {
        TransferState { filename, total_bytes, bytes_transferred: 0, phase: TransferPhase::Running }
    }

    /// The cumulative count of bytes moved so far.
    pub fn bytes_transferred(&self) -> (r: u64)
        ensures
            r == self@.bytes_transferred,
    {
        self.bytes_transferred
    }

    /// The size the source reported when the transfer began.
    pub fn total_bytes(&self) -> (r: u64)
        ensures
            r == self@.total_bytes,
    {
        self.total_bytes
    }

    /// One chunk boundary of the streaming loop: applies the observation and
    /// yields the event to emit — Progress carrying the cumulative count
    /// after every chunk, Complete on end of stream, the cancellation Error
    /// when the signal won the race, and the failure's own message otherwise.
    pub fn step(&mut self, obs: TransferObs) -> (ev: TransferEvent)
        requires
            old(self)@.phase == TransferPhase::Running,
            obs matches TransferObs::Chunk(n) ==> n > 0 && old(self)@.bytes_transferred + n
                <= u64::MAX,
        ensures
            final(self)@ == next_state(old(self)@, obs),
            match obs {
                TransferObs::Chunk(_) => ev matches TransferEvent::Progress {
                    bytes_transferred,
                    total_bytes,
                    filename,
                } && bytes_transferred == final(self)@.bytes_transferred && total_bytes == old(
                    self,
                )@.total_bytes && filename@ == old(self)@.filename,
                TransferObs::Eof => ev matches TransferEvent::Complete { filename } && filename@
                    == old(self)@.filename,
                TransferObs::Cancelled => ev matches TransferEvent::Error { filename, message }
                    && filename@ == old(self)@.filename && message@ == "Transfer cancelled"@,
                TransferObs::Failed(m) => ev matches TransferEvent::Error { filename, message }
                    && filename@ == old(self)@.filename && message@ == m@,
            },
    {
        match obs {
            TransferObs::Chunk(n) => {
                self.bytes_transferred = self.bytes_transferred + n;
                TransferEvent::Progress {
                    bytes_transferred: self.bytes_transferred,
                    total_bytes: self.total_bytes,
                    filename: self.filename.clone(),
                }
            },
            TransferObs::Eof => {
                self.phase = TransferPhase::Completed;
                TransferEvent::Complete { filename: self.filename.clone() }
            },
            TransferObs::Cancelled => {
                self.phase = TransferPhase::Failed;
                TransferEvent::Error {
                    filename: self.filename.clone(),
                    message: "Transfer cancelled".to_owned(),
                }
            },
            TransferObs::Failed(m) => {
                self.phase = TransferPhase::Failed;
                TransferEvent::Error { filename: self.filename.clone(), message: m }
            },
        }
    }
}

/// The sum of the first `i` chunk sizes.
pub open spec fn chunk_sum(ns: Seq<u64>, i: int) -> int
    decreases i,
{
    if i <= 0 {
        0
    } else {
        chunk_sum(ns, i - 1) + ns[i - 1]
    }
}

/// The state after the first `i` chunks have been observed.
pub open spec fn state_after_chunks(s0: TransferStateView, ns: Seq<u64>, i: int)
    -> TransferStateView
    decreases i,
{
    if i <= 0 {
        s0
    } else {
        next_state(state_after_chunks(s0, ns, i - 1), TransferObs::Chunk(ns[i - 1]))
    }
}

proof fn lemma_chunk_sum_mono(ns: Seq<u64>, i: int, j: int)
    requires
        0 <= i <= j,
    ensures
        chunk_sum(ns, i) <= chunk_sum(ns, j),
    decreases j - i,
{
    if i < j {
        lemma_chunk_sum_mono(ns, i, j - 1);
    }
}

proof fn lemma_state_after_chunks(s0: TransferStateView, ns: Seq<u64>, i: int)
    requires
        s0.phase == TransferPhase::Running,
        s0.bytes_transferred == 0,
        0 <= i <= ns.len(),
        chunk_sum(ns, ns.len() as int) <= u64::MAX,
    ensures
        state_after_chunks(s0, ns, i) == (TransferStateView {
            bytes_transferred: chunk_sum(ns, i) as u64,
            ..s0
        }),
    decreases i,
{
    if i > 0 {
        lemma_state_after_chunks(s0, ns, i - 1);
        lemma_chunk_sum_mono(ns, 0, i - 1);
        lemma_chunk_sum_mono(ns, i, ns.len() as int);
        assert(chunk_sum(ns, i) == chunk_sum(ns, i - 1) + ns[i - 1]);
        assert(0 <= chunk_sum(ns, i - 1) && chunk_sum(ns, i) <= u64::MAX);
    }
}

/// For a transfer begun with the source's size as its total that moves chunks
/// summing to that size and then reaches end of stream: the machine stays
/// running through every chunk, the cumulative count after the first `i`
/// chunks — the count the `i`-th Progress event carries — is the sum of the
/// first `i` chunk sizes (so the deltas across the Progress stream are the
/// chunk sizes, and they sum to the file's size), the final Progress count
/// equals the total, and the end-of-stream observation completes the
/// transfer.
pub proof fn lemma_completed_transfer_accounting(s0: TransferStateView, ns: Seq<u64>)
    requires
        s0.phase == TransferPhase::Running,
        s0.bytes_transferred == 0,
        chunk_sum(ns, ns.len() as int) == s0.total_bytes,
    ensures
        forall|i: int|
            0 <= i <= ns.len() ==> (#[trigger] state_after_chunks(s0, ns, i)).phase
                == TransferPhase::Running,
        forall|i: int|
            0 <= i <= ns.len() ==> (#[trigger] state_after_chunks(s0, ns, i)).bytes_transferred
                == chunk_sum(ns, i),
        state_after_chunks(s0, ns, ns.len() as int).bytes_transferred == s0.total_bytes,
        next_state(state_after_chunks(s0, ns, ns.len() as int), TransferObs::Eof).phase
            == TransferPhase::Completed,
{
    assert forall|i: int| 0 <= i <= ns.len() implies (#[trigger] state_after_chunks(
        s0,
        ns,
        i,
    )).phase == TransferPhase::Running && (state_after_chunks(s0, ns, i)).bytes_transferred
        == chunk_sum(ns, i) by {
        lemma_state_after_chunks(s0, ns, i);
        lemma_chunk_sum_mono(ns, i, ns.len() as int);
        assert(chunk_sum(ns, i) >= 0) by {
            lemma_chunk_sum_mono(ns, 0, i);
        }
    }
}

/// Cancellation observed at a chunk boundary ends the stream at once: the
/// machine is failed, and — `step` admitting only a running machine, and no
/// observation bringing one back to running — no further event, in
/// particular no further Progress event, can follow the cancellation Error.
pub proof fn lemma_cancelled_transfer_terminal(s: TransferStateView)
    ensures
        next_state(s, TransferObs::Cancelled).phase == TransferPhase::Failed,
        forall|obs: TransferObs|
            #[trigger] next_state(next_state(s, TransferObs::Cancelled), obs).phase
                != TransferPhase::Running,
{
}

/// The side whose partial artifact a cancelled transfer discards: no partial
/// data is left positioned for resumption, so a download removes the partial
/// local file and an upload removes the partial remote file.
#[derive(Clone, Copy, Debug, PartialEq, Eq, Structural)]
pub enum ArtifactSide {
    LocalFile,
    RemoteFile,
}

/// Where the partial artifact of a cancelled transfer lies: the destination
/// side of the transfer.
pub fn cancel_cleanup_side(direction: TransferDirection) -> (r: ArtifactSide)
    ensures
        r == ArtifactSide::LocalFile <==> direction == TransferDirection::Download,
        r == ArtifactSide::RemoteFile <==> direction == TransferDirection::Upload,
{
    match direction {
        TransferDirection::Download => ArtifactSide::LocalFile,
        TransferDirection::Upload => ArtifactSide::RemoteFile,
    }
}

} // verus!
