//! The ingress side of an update: turning one HTTP request into commands
//! for the background writer, the running byte total, and the single-slot
//! backpressure handshake.
//!
//! The chunk endpoint caps the body at [`MAX_LEN`] bytes, reads the
//! boundary from the `Content-Type` value, pulls the `index` and `chunk`
//! parts out of the form body, emits `Start` when the declared index is
//! zero and then the chunk itself, waits for the writer's acknowledgment,
//! and replies with the new running total.  The finish endpoint emits
//! `Finish` unconditionally and replies at once.
//!
//! [`UpdateCoordinator`] composes the pieces under the single-uploader
//! precondition: requests are handled one at a time, so the rendezvous
//! with the writer resolves within the handling of each request.  A
//! request the writer never acknowledges — its worker is dead — blocks
//! the calling thread forever on the device; here it reports [`ChunkResponse::Stalled`].

use vstd::prelude::*;
use crate::decimal::spec_parse_usize;
use crate::decimal::parse_usize;
use crate::multipart::{spec_boundary, spec_form_fields, opt_bytes, extract_boundary, parse_form};
use crate::writer::{
    CommandModel, UpdateCommand, UpdateWriter, WriterModel, WriterPhase, fresh_writer,
    writer_acks, writer_step,
};

verus! {

/// The largest request body either endpoint accepts, framing included.
pub const MAX_LEN: usize = 4096;

/// Addition that wraps at the machine-word bound, as the running total's
/// atomic counter does.
pub open spec fn add_wrap(a: int, b: int) -> usize {
    if a + b > usize::MAX {
        (a + b - (usize::MAX + 1)) as usize
    } else {
        (a + b) as usize
    }
}

/// The monotonic count of bytes committed: bumped by a chunk's length
/// right after that chunk is durably written and acknowledged.
pub struct ByteOffsetTracker {
    total: usize,
}

impl View for ByteOffsetTracker {
    type V = usize;

    closed spec fn view(&self) -> usize {
        self.total
    }
}

impl ByteOffsetTracker {
    /// A tracker at zero.
    pub fn new() -> (t: ByteOffsetTracker)
        ensures
            t@ == 0,
    {
        ByteOffsetTracker { total: 0 }
    }

    /// Adds `n` to the total, wrapping at the word bound, and returns the
    /// total as it stood before.
    pub fn add(&mut self, n: usize) -> (old_total: usize)
        ensures
            old_total == old(self)@,
            final(self)@ == add_wrap(old(self)@ as int, n as int),
            old(self)@ + n <= usize::MAX ==> final(self)@ == old(self)@ + n,
    {
        let before = self.total;
        if n <= usize::MAX - self.total {
            self.total = self.total + n;
        } else {
            self.total = n - (usize::MAX - self.total) - 1;
        }
        before
    }

    /// The total as it stands.
    pub fn total(&self) -> (r: usize)
        ensures
            r == self@,
    {
        self.total
    }
}

/// The single-slot rendezvous between the writer and the request thread:
/// set after a chunk write completes, cleared by the request thread once
/// observed.  At most one chunk is in flight.
pub struct ChunkReadySignal {
    ready: bool,
}

impl View for ChunkReadySignal {
    type V = bool;

    closed spec fn view(&self) -> bool {
        self.ready
    }
}

impl ChunkReadySignal {
    /// A cleared signal.
    pub fn new() -> (s: ChunkReadySignal)
        ensures
            !s@,
    {
        ChunkReadySignal { ready: false }
    }

    /// The writer raises the signal after a chunk write completes.
    pub fn set(&mut self)
        ensures
            final(self)@,
    {
        self.ready = true;
    }

    /// The request thread observes and clears the signal in one step,
    /// returning what it observed.
    pub fn take(&mut self) -> (was: bool)
        ensures
            was == old(self)@,
            !final(self)@,
    {
        let was = self.ready;
        self.ready = false;
        was
    }
}

/// What the chunk endpoint replies.
#[derive(Clone, PartialEq, Eq, Structural, Debug)]
pub enum ChunkResponse {
    /// The body exceeds [`MAX_LEN`]: rejected before anything else, with
    /// no command enqueued and no state touched.
    TooLarge,
    /// The `Content-Type` value declares no usable boundary.
    NoBoundary,
    /// The body does not parse against the declared boundary.
    Malformed,
    /// No part named `index` holding a decimal number.
    NoIndex,
    /// No part named `chunk`.  When the declared index was zero, `Start`
    /// has already been emitted by this point.
    NoChunk,
    /// The chunk was written and acknowledged: the new running total, and
    /// whether the declared index disagreed with the total it was checked
    /// against (a diagnostic only — the chunk is committed either way).
    Accepted { total: usize, mismatch: bool },
    /// The writer never acknowledged: on the device the calling thread
    /// blocks forever polling the signal.
    Stalled,
}

/// What the finish endpoint replies.
#[derive(Clone, Copy, PartialEq, Eq, Structural, Debug)]
pub enum FinishResponse {
    /// The body exceeds [`MAX_LEN`]: rejected with nothing enqueued.
    TooLarge,
    /// `Finish` was enqueued; the reply does not wait for the writer.
    Accepted,
}

/// What one chunk request asks of the coordinator: an immediate error
/// reply, or commands for the writer.
pub enum ChunkPlan {
    /// Reply at once; nothing is sent to the writer.
    Reject(ChunkResponse),
    /// Send `Start` first when `start` holds, then the chunk in `data`;
    /// a request that declared a chunkless index-zero body has `start`
    /// set and `data` empty, and still strands the writer in a session.
    Commands { start: bool, index: usize, data: Option<Vec<u8>> },
}

/// The mathematical form of a plan.
#[verifier::ext_equal]
pub enum PlanModel {
    Reject(ChunkResponse),
    Commands { start: bool, index: usize, data: Option<Seq<u8>> },
}

impl View for ChunkPlan {
    type V = PlanModel;

    open spec fn view(&self) -> PlanModel {
        match self {
            ChunkPlan::Reject(resp) => PlanModel::Reject(*resp),
            ChunkPlan::Commands { start, index, data } => PlanModel::Commands {
                start: *start,
                index: *index,
                data: opt_bytes(*data),
            },
        }
    }
}

/// The view of an optional `Content-Type` value.
pub open spec fn ct_view(ct: Option<&[u8]>) -> Option<Seq<u8>> {
    match ct {
        None => None,
        Some(s) => Some(s@),
    }
}

/// The number an optional `index` part declares, if it parses.
pub open spec fn spec_index_of(t: Option<Seq<u8>>) -> Option<usize> {
    match t {
        None => None,
        Some(s) => spec_parse_usize(s),
    }
}

/// What one chunk request asks, from its `Content-Type` value and body:
/// the size cap first, then the boundary, then the form parts, then the
/// declared index — the first failure decides the reply.  `Start` is owed
/// exactly when the declared index is zero, before the chunk part's
/// presence is even checked.
pub open spec fn spec_plan(ct: Option<Seq<u8>>, body: Seq<u8>) -> PlanModel {
    if body.len() > MAX_LEN {
        PlanModel::Reject(ChunkResponse::TooLarge)
    } else {
        match spec_boundary(ct) {
            None => PlanModel::Reject(ChunkResponse::NoBoundary),
            Some(b) => match spec_form_fields(body, b) {
                None => PlanModel::Reject(ChunkResponse::Malformed),
                Some(fields) => match spec_index_of(fields.0) {
                    None => PlanModel::Reject(ChunkResponse::NoIndex),
                    Some(index) => PlanModel::Commands {
                        start: index == 0,
                        index,
                        data: fields.1,
                    },
                },
            },
        }
    }
}

/// Decides one chunk request, exactly as [`spec_plan`] describes.  Pure:
/// the caller (the request handler) performs the plan against the writer.
pub fn plan_chunk_request(ct: Option<&[u8]>, body: &[u8]) -> (r: ChunkPlan)
    ensures
        r@ == spec_plan(ct_view(ct), body@),
{
    if body.len() > MAX_LEN {
        return ChunkPlan::Reject(ChunkResponse::TooLarge);
    }
    let boundary = match extract_boundary(ct) {
        None => {
            return ChunkPlan::Reject(ChunkResponse::NoBoundary);
        },
        Some(b) => b,
    };
    let fields = match parse_form(body, &boundary) {
        None => {
            return ChunkPlan::Reject(ChunkResponse::Malformed);
        },
        Some(f) => f,
    };
    let index = match &fields.index_text {
        None => {
            return ChunkPlan::Reject(ChunkResponse::NoIndex);
        },
        Some(t) => match parse_usize(t.as_slice()) {
            None => {
                return ChunkPlan::Reject(ChunkResponse::NoIndex);
            },
            Some(index) => index,
        },
    };
    ChunkPlan::Commands { start: index == 0, index, data: fields.chunk_data }
}

/// The whole update subsystem as one value: the writer's state and the
/// running total.
#[verifier::ext_equal]
pub struct CoordinatorModel {
    pub writer: WriterModel,
    pub total: usize,
}

/// A subsystem that has served nothing: idle writer, zero total.
pub open spec fn fresh_coordinator() -> CoordinatorModel {
    CoordinatorModel { writer: fresh_writer(), total: 0 }
}

/// The `Start` a zero index owes, applied before the chunk itself.
pub open spec fn start_phase(d: CoordinatorModel, index: usize) -> CoordinatorModel {
    if index == 0 {
        CoordinatorModel { writer: writer_step(d.writer, CommandModel::Start), total: d.total }
    } else {
        d
    }
}

/// One chunk submission past parsing: the owed `Start`, the chunk command,
/// and — exactly when the writer acknowledges — the total bumped by the
/// chunk's length and a reply carrying it.  An unacknowledged chunk leaves
/// the total alone and stalls the caller.
pub open spec fn submit_step(d: CoordinatorModel, index: usize, data: Seq<u8>) -> (
    CoordinatorModel,
    ChunkResponse,
) {
    let d1 = start_phase(d, index);
    let w2 = writer_step(d1.writer, CommandModel::Chunk(data));
    if writer_acks(d1.writer, CommandModel::Chunk(data)) {
        let newt = add_wrap(d.total as int, data.len() as int);
        (
            CoordinatorModel { writer: w2, total: newt },
            ChunkResponse::Accepted { total: newt, mismatch: d.total != index },
        )
    } else {
        (CoordinatorModel { writer: w2, total: d.total }, ChunkResponse::Stalled)
    }
}

/// One whole chunk request: what the subsystem becomes and what it
/// replies.
pub open spec fn chunk_step(d: CoordinatorModel, ct: Option<Seq<u8>>, body: Seq<u8>) -> (
    CoordinatorModel,
    ChunkResponse,
) {
    match spec_plan(ct, body) {
        PlanModel::Reject(resp) => (d, resp),
        PlanModel::Commands { start, index, data } => match data {
            None => (start_phase(d, index), ChunkResponse::NoChunk),
            Some(data) => submit_step(d, index, data),
        },
    }
}

/// One finish request: the size cap, then an unconditional `Finish`.  The
/// reply never waits for the writer, so it reads the same whether the
/// image was sealed, a session was never open (killing the worker), or
/// the device is already restarting.
pub open spec fn finish_step(d: CoordinatorModel, content_len: usize) -> (
    CoordinatorModel,
    FinishResponse,
) {
    if content_len > MAX_LEN {
        (d, FinishResponse::TooLarge)
    } else {
        (
            CoordinatorModel {
                writer: writer_step(d.writer, CommandModel::Finish),
                total: d.total,
            },
            FinishResponse::Accepted,
        )
    }
}

/// The update subsystem: the writer, the byte tracker and the ready
/// signal, serving requests one at a time.
pub struct UpdateCoordinator {
    writer: UpdateWriter,
    tracker: ByteOffsetTracker,
    signal: ChunkReadySignal,
}

impl View for UpdateCoordinator {
    type V = CoordinatorModel;

    closed spec fn view(&self) -> CoordinatorModel {
        CoordinatorModel { writer: self.writer@, total: self.tracker@ }
    }
}

impl UpdateCoordinator {
    /// Between requests the rendezvous slot is empty: the writer raises it
    /// only while a chunk request is waiting, and that request clears it.
    pub closed spec fn wf(&self) -> bool {
        !self.signal@
    }

    /// A subsystem that has served nothing.
    pub fn new() -> (c: UpdateCoordinator)
        ensures
            c@ == fresh_coordinator(),
            c.wf(),
    {
        let c = UpdateCoordinator {
            writer: UpdateWriter::new(),
            tracker: ByteOffsetTracker::new(),
            signal: ChunkReadySignal::new(),
        };
        assert(c@ =~= fresh_coordinator());
        c
    }

    /// Serves one chunk request, exactly as [`chunk_step`] describes.
    pub fn handle_chunk(&mut self, ct: Option<&[u8]>, body: &[u8]) -> (r: ChunkResponse)
        requires
            old(self).wf(),
        ensures
            final(self).wf(),
            (final(self)@, r) == chunk_step(old(self)@, ct_view(ct), body@),
            body@.len() > MAX_LEN ==> r == ChunkResponse::TooLarge && final(self)@ == old(
                self,
            )@,
    {
        let plan = plan_chunk_request(ct, body);
        match plan {
            ChunkPlan::Reject(resp) => resp,
            ChunkPlan::Commands { start, index, data } => {
                if start {
                    let _ = self.writer.apply(UpdateCommand::Start);
                }
                match data {
                    None => ChunkResponse::NoChunk,
                    Some(data) => {
                        let len = data.len();
                        let acked = self.writer.apply(UpdateCommand::Chunk(data));
                        if acked {
                            self.signal.set();
                        }
                        if self.signal.take() {
                            let old_total = self.tracker.add(len);
                            let total = self.tracker.total();
                            ChunkResponse::Accepted { total, mismatch: old_total != index }
                        } else {
                            ChunkResponse::Stalled
                        }
                    },
                }
            },
        }
    }

    /// Serves one finish request, exactly as [`finish_step`] describes.
    pub fn handle_finish(&mut self, content_len: usize) -> (r: FinishResponse)
        requires
            old(self).wf(),
        ensures
            final(self).wf(),
            (final(self)@, r) == finish_step(old(self)@, content_len),
            content_len > MAX_LEN ==> r == FinishResponse::TooLarge && final(self)@ == old(
                self,
            )@,
    {
        if content_len > MAX_LEN {
            return FinishResponse::TooLarge;
        }
        let _ = self.writer.apply(UpdateCommand::Finish);
        FinishResponse::Accepted
    }

    /// The running byte total.
    pub fn committed(&self) -> (r: usize)
        ensures
            r == self@.total,
    {
        self.tracker.total()
    }

    /// The writer's phase.
    pub fn writer_phase(&self) -> (r: WriterPhase)
        ensures
            r == self@.writer.phase,
    {
        self.writer.phase()
    }

    /// The sealed bootable image, once a finish has landed in a session.
    pub fn image(&self) -> (r: Option<&Vec<u8>>)
        ensures
            match r {
                None => self@.writer.image is None,
                Some(v) => self@.writer.image == Some(v@),
            },
    {
        self.writer.image()
    }

    /// The bytes written to the open target so far.
    pub fn target_bytes(&self) -> (r: &Vec<u8>)
        ensures
            r@ == self@.writer.target,
    {
        self.writer.target_bytes()
    }
}

/// The lengths of a chunk sequence, summed.
pub open spec fn sum_lens(chunks: Seq<Seq<u8>>) -> int
    decreases chunks.len(),
{
    if chunks.len() == 0 {
        0
    } else {
        chunks[0].len() + sum_lens(chunks.drop_first())
    }
}

/// A chunk sequence, concatenated.
pub open spec fn concat_all(chunks: Seq<Seq<u8>>) -> Seq<u8>
    decreases chunks.len(),
{
    if chunks.len() == 0 {
        Seq::empty()
    } else {
        chunks[0] + concat_all(chunks.drop_first())
    }
}

/// A run of chunk submissions each declaring exactly the running total as
/// its index: 0, then the cumulative sums.
pub open spec fn run_contiguous(d: CoordinatorModel, chunks: Seq<Seq<u8>>) -> CoordinatorModel
    decreases chunks.len(),
{
    if chunks.len() == 0 {
        d
    } else {
        run_contiguous(submit_step(d, d.total, chunks[0]).0, chunks.drop_first())
    }
}

proof fn lemma_sum_lens_nonneg(chunks: Seq<Seq<u8>>)
    ensures
        sum_lens(chunks) >= 0,
    decreases chunks.len(),
{
    if chunks.len() > 0 {
        lemma_sum_lens_nonneg(chunks.drop_first());
    }
}

proof fn lemma_run_contiguous_active(d: CoordinatorModel, chunks: Seq<Seq<u8>>)
    requires
        d.writer.phase == WriterPhase::Active,
        d.total > 0,
        d.total + sum_lens(chunks) <= usize::MAX,
    ensures
        run_contiguous(d, chunks).total == d.total + sum_lens(chunks),
        run_contiguous(d, chunks).writer.phase == WriterPhase::Active,
        run_contiguous(d, chunks).writer.target == d.writer.target + concat_all(chunks),
        run_contiguous(d, chunks).writer.image == d.writer.image,
    decreases chunks.len(),
{
    if chunks.len() == 0 {
        assert(d.writer.target + concat_all(chunks) =~= d.writer.target);
    } else {
        let data = chunks[0];
        lemma_sum_lens_nonneg(chunks.drop_first());
        let stepped = submit_step(d, d.total, data).0;
        assert(stepped.total == d.total + data.len());
        lemma_run_contiguous_active(stepped, chunks.drop_first());
        assert(stepped.writer.target + concat_all(chunks.drop_first()) =~= d.writer.target
            + concat_all(chunks));
    }
}

/// When every chunk of a sequence is submitted with its index declaring
/// exactly the running total — 0 first, then the cumulative sums — the
/// final committed byte count is the sum of the chunk lengths, and the
/// open target holds exactly their concatenation.
///
/// The first chunk must be non-empty: a first submission that commits no
/// byte leaves the total at zero, so the next submission declares index
/// zero again, which aborts the open session and then kills the worker.
pub proof fn lemma_contiguous_upload(chunks: Seq<Seq<u8>>)
    requires
        chunks.len() > 0 ==> chunks[0].len() > 0,
        sum_lens(chunks) <= usize::MAX,
    ensures
        run_contiguous(fresh_coordinator(), chunks).total == sum_lens(chunks),
        chunks.len() > 0 ==> run_contiguous(fresh_coordinator(), chunks).writer.target
            == concat_all(chunks),
{
    if chunks.len() > 0 {
        let d = fresh_coordinator();
        let data = chunks[0];
        lemma_sum_lens_nonneg(chunks.drop_first());
        let stepped = submit_step(d, 0, data).0;
        assert(stepped.writer.phase == WriterPhase::Active);
        assert(stepped.writer.target =~= data);
        assert(stepped.total == data.len());
        lemma_run_contiguous_active(stepped, chunks.drop_first());
        assert(stepped.writer.target + concat_all(chunks.drop_first()) =~= concat_all(
            chunks,
        ));
    }
}

/// A second index-zero submission while a session is open aborts that
/// session — and then kills the worker, for its own chunk lands on the
/// now-idle writer.  The caller stalls, nothing is ever sealed, and no
/// byte of the aborted session reaches any image.
pub proof fn lemma_second_start_kills(d: CoordinatorModel, data: Seq<u8>)
    requires
        d.writer.phase == WriterPhase::Active,
        d.writer.image is None,
    ensures
        submit_step(d, 0, data).0.writer.phase == WriterPhase::Dead,
        submit_step(d, 0, data).0.writer.image is None,
        submit_step(d, 0, data).0.total == d.total,
        submit_step(d, 0, data).1 == ChunkResponse::Stalled,
{
}

/// A mismatched declared index is a diagnostic, not an error: while a
/// session is open, a chunk declaring any non-zero index is written in
/// full, the total advances by the chunk's length, and the reply carries
/// the new total with the mismatch flag set exactly when the index
/// disagreed.
///
/// Index zero is the exception: a zero index re-opens the session, so a
/// zero declared against a non-zero total aborts the open session instead.
pub proof fn lemma_mismatch_still_writes(d: CoordinatorModel, index: usize, data: Seq<u8>)
    requires
        d.writer.phase == WriterPhase::Active,
        index != 0,
    ensures
        submit_step(d, index, data).1 == (ChunkResponse::Accepted {
            total: add_wrap(d.total as int, data.len() as int),
            mismatch: d.total != index,
        }),
        submit_step(d, index, data).0.writer.phase == WriterPhase::Active,
        submit_step(d, index, data).0.writer.target == d.writer.target + data,
        submit_step(d, index, data).0.total == add_wrap(d.total as int, data.len() as int),
{
}

} // verus!

