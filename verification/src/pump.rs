//! One direction of a relayed connection: the skip filter and the pump that
//! reads chunks from one socket and writes them to the other.

use vstd::prelude::*;

verus! {

/// Size of the buffer a pump reads into, in bytes.
pub const BUFFER_SIZE: usize = 4096;

/// Which way a pump carries bytes.
#[derive(Clone, Copy, Debug, PartialEq, Eq, Structural)]
pub enum Direction {
    ClientToDestination,
    DestinationToClient,
}

impl Direction {
    /// The other direction.
    pub open spec fn spec_opposite(self) -> Direction {
        match self {
            Direction::ClientToDestination => Direction::DestinationToClient,
            Direction::DestinationToClient => Direction::ClientToDestination,
        }
    }

    /// The direction of the sibling pump.
    #[verifier::when_used_as_spec(spec_opposite)]
    pub fn opposite(self) -> (r: Direction)
        ensures
            r == self.spec_opposite(),
    {
        match self {
            Direction::ClientToDestination => Direction::DestinationToClient,
            Direction::DestinationToClient => Direction::ClientToDestination,
        }
    }
}

/// What the filter decides for one chunk.
#[derive(Clone, Copy, Debug, PartialEq, Eq, Structural)]
pub enum Verdict {
    /// The whole chunk is dropped.
    Discard,
    /// The whole chunk is written through unchanged.
    Forward,
}

/// Mathematical state of a skip filter.
pub struct FilterModel {
    /// Number of leading chunks to drop.
    pub skip_count: nat,
    /// Number of chunks dropped so far.
    pub skipped: nat,
}

impl FilterModel {
    /// The counter never passes the configured count.
    pub open spec fn wf(self) -> bool {
        self.skipped <= self.skip_count
    }

    /// A filter that has seen nothing yet.
    pub open spec fn start(skip_count: nat) -> FilterModel {
        FilterModel { skip_count, skipped: 0 }
    }

    /// The verdict on the next chunk.
    pub open spec fn verdict(self) -> Verdict {
        if self.skipped < self.skip_count {
            Verdict::Discard
        } else {
            Verdict::Forward
        }
    }

    /// The state after the next chunk: the counter grows while it is below
    /// the configured count and stays put from then on.
    pub open spec fn next(self) -> FilterModel {
        if self.skipped < self.skip_count {
            FilterModel { skip_count: self.skip_count, skipped: self.skipped + 1 }
        } else {
            self
        }
    }

    /// The state after `n` chunks.
    pub open spec fn after(self, n: nat) -> FilterModel
        decreases n,
    {
        if n == 0 {
            self
        } else {
            self.next().after((n - 1) as nat)
        }
    }

    /// The chunks let through, of `chunks` read in this order.
    pub open spec fn passed(self, chunks: Seq<Seq<u8>>) -> Seq<Seq<u8>>
        decreases chunks.len(),
    {
        if chunks.len() == 0 {
            Seq::empty()
        } else {
            let rest = self.next().passed(chunks.drop_first());
            if self.verdict() == Verdict::Forward {
                seq![chunks[0]] + rest
            } else {
                rest
            }
        }
    }
}

/// Drops the first `skip_count` chunks it is asked about and lets every
/// later one through.
#[derive(Clone, Copy, Debug)]
pub struct SkipFilter {
    skip_count: usize,
    skipped: usize,
}

impl View for SkipFilter {
    type V = FilterModel;

    closed spec fn view(&self) -> FilterModel {
        FilterModel { skip_count: self.skip_count as nat, skipped: self.skipped as nat }
    }
}

impl SkipFilter {
    #[verifier::type_invariant]
    spec fn inv(&self) -> bool {
        self.skipped <= self.skip_count
    }

    /// A filter that will drop the first `skip_count` chunks.
    pub fn new(skip_count: usize) -> (f: SkipFilter)
        ensures
            f@ == FilterModel::start(skip_count as nat),
    {
        SkipFilter { skip_count, skipped: 0 }
    }

    /// Number of leading chunks this filter drops.
    pub fn skip_count(&self) -> (k: usize)
        ensures
            k == self@.skip_count,
    {
        self.skip_count
    }

    /// Number of chunks dropped so far; never more than `skip_count`.
    pub fn skipped(&self) -> (n: usize)
        ensures
            n == self@.skipped,
            n <= self@.skip_count,
    {
        proof {
            use_type_invariant(self);
        }
        self.skipped
    }

    /// Decides the fate of the next chunk and counts it if it is dropped.
    pub fn decide(&mut self) -> (v: Verdict)
        ensures
            old(self)@.wf(),
            v == old(self)@.verdict(),
            final(self)@ == old(self)@.next(),
            final(self)@.wf(),
    {
        proof {
            use_type_invariant(&*self);
        }
        if self.skipped < self.skip_count {
            self.skipped = self.skipped + 1;
            Verdict::Discard
        } else {
            Verdict::Forward
        }
    }
}

/// After `n` chunks a well-formed filter has counted `n` more, but never
/// beyond its configured count.
pub proof fn lemma_counter_is_clamped(m: FilterModel, n: nat)
    requires
        m.wf(),
    ensures
        m.after(n).skip_count == m.skip_count,
        m.after(n).skipped == if m.skipped + n <= m.skip_count {
            m.skipped + n
        } else {
            m.skip_count
        },
        m.after(n).wf(),
        m.skipped <= m.after(n).skipped,
    decreases n,
{
    if n > 0 {
        lemma_counter_is_clamped(m.next(), (n - 1) as nat);
    }
}

/// A well-formed filter that still has `r` chunks to drop lets through
/// exactly the chunks from position `r` on, each one whole and in order.
pub proof fn lemma_passed_is_suffix(m: FilterModel, chunks: Seq<Seq<u8>>)
    requires
        m.wf(),
    ensures
        m.passed(chunks) == if m.skip_count - m.skipped <= chunks.len() {
            chunks.subrange(m.skip_count - m.skipped, chunks.len() as int)
        } else {
            Seq::<Seq<u8>>::empty()
        },
    decreases chunks.len(),
{
    let r = m.skip_count - m.skipped;
    let n = chunks.len() as int;
    if n == 0 {
        assert(chunks.subrange(0, 0) =~= Seq::<Seq<u8>>::empty());
    } else {
        let tail = chunks.drop_first();
        lemma_passed_is_suffix(m.next(), tail);
        if r == 0 {
            assert(m.next() == m);
            assert(seq![chunks[0]] + tail.subrange(0, n - 1) =~= chunks.subrange(0, n));
        } else if r <= n {
            assert(tail.subrange(r - 1, n - 1) =~= chunks.subrange(r, n));
        }
    }
}

/// A fresh filter with count `k` drops exactly the first `k` chunks and
/// passes chunk `k` (counting from zero) and all later ones byte for byte;
/// with `k == 0` what comes out is what went in.
pub proof fn lemma_skip_drops_exact_prefix(k: nat, chunks: Seq<Seq<u8>>)
    ensures
        k <= chunks.len() ==> FilterModel::start(k).passed(chunks) == chunks.subrange(
            k as int,
            chunks.len() as int,
        ),
        k > chunks.len() ==> FilterModel::start(k).passed(chunks) == Seq::<Seq<u8>>::empty(),
        k == 0 ==> FilterModel::start(k).passed(chunks) == chunks,
        k == 0 ==> FilterModel::start(k).passed(chunks).flatten() == chunks.flatten(),
        forall|i: nat|
            FilterModel::start(k).after(i).verdict() == if i < k {
                Verdict::Discard
            } else {
                Verdict::Forward
            },
{
    lemma_passed_is_suffix(FilterModel::start(k), chunks);
    assert(chunks.subrange(0, chunks.len() as int) =~= chunks);
    assert forall|i: nat|
        FilterModel::start(k).after(i).verdict() == if i < k {
            Verdict::Discard
        } else {
            Verdict::Forward
        } by {
        lemma_counter_is_clamped(FilterModel::start(k), i);
    }
}

/// Why a pump stopped.
#[derive(Clone, Copy, Debug, PartialEq, Eq, Structural)]
pub enum PumpEnd {
    /// The source reported a clean end of stream.
    Eof,
    /// Reading from the source failed.
    ReadFailed,
    /// Writing to the sink failed.
    WriteFailed,
    /// The session told the pump to stop.
    Cancelled,
}

impl PumpEnd {
    /// Whether the pump stopped on a socket error.
    pub open spec fn spec_is_error(self) -> bool {
        self == PumpEnd::ReadFailed || self == PumpEnd::WriteFailed
    }

    /// Whether the pump stopped on a socket error.
    #[verifier::when_used_as_spec(spec_is_error)]
    pub fn is_error(self) -> (b: bool)
        ensures
            b == self.spec_is_error(),
    {
        match self {
            PumpEnd::ReadFailed => true,
            PumpEnd::WriteFailed => true,
            _ => false,
        }
    }
}

/// How one pump ended and how many bytes it had written by then.
#[derive(Clone, Copy, Debug, PartialEq, Eq, Structural)]
pub struct PumpReport {
    pub end: PumpEnd,
    pub bytes: u64,
}

/// What a pump is waiting for.
#[derive(Clone, Copy, Debug, PartialEq, Eq, Structural)]
pub enum Phase {
    /// A read from the source is outstanding.
    Reading,
    /// A write of this many bytes to the sink is outstanding.
    Writing(usize),
    /// The pump has stopped for good.
    Finished(PumpEnd),
}

/// What the caller reports to a pump.
#[derive(Clone, Copy, Debug, PartialEq, Eq, Structural)]
pub enum PumpEvent {
    /// The read returned a chunk of this many bytes; zero is end of stream.
    Chunk(usize),
    /// The read failed.
    ReadFailed,
    /// The outstanding write went through completely.
    Written,
    /// The outstanding write failed.
    WriteFailed,
    /// The session wants the pump to stop.
    Cancel,
}

/// What the caller has to do next for a pump.
#[derive(Clone, Copy, Debug, PartialEq, Eq, Structural)]
pub enum PumpAction {
    /// Read the next chunk from the source.
    Read,
    /// Write the first so many bytes of the buffer, all of them, to the sink.
    Write(usize),
    /// Shut down the write half of the sink and report the end to the session.
    Stop(PumpEnd),
    /// The event changes nothing.
    Nothing,
}

/// `a + b`, held at the largest `u64`.
pub open spec fn saturating_sum(a: nat, b: nat) -> nat {
    if a + b > u64::MAX {
        u64::MAX as nat
    } else {
        a + b
    }
}

/// Sum of the lengths of `chunks`.
pub open spec fn total_len(chunks: Seq<Seq<u8>>) -> nat
    decreases chunks.len(),
{
    if chunks.len() == 0 {
        0
    } else {
        chunks[0].len() + total_len(chunks.drop_first())
    }
}

/// Mathematical state of a pump.
pub struct PumpModel {
    pub direction: Direction,
    pub filter: FilterModel,
    pub phase: Phase,
    /// Bytes written to the sink so far, held at the largest `u64`.
    pub bytes: nat,
}

impl PumpModel {
    /// The filter is well formed and the byte count fits a `u64`.
    pub open spec fn wf(self) -> bool {
        self.filter.wf() && self.bytes <= u64::MAX
    }

    /// The number of chunks a pump in this direction drops: only the pump
    /// towards the destination filters.
    pub open spec fn effective_skip(direction: Direction, skip_count: nat) -> nat {
        if direction == Direction::ClientToDestination {
            skip_count
        } else {
            0
        }
    }

    /// A pump about to make its first read.
    pub open spec fn start(direction: Direction, skip_count: nat) -> PumpModel {
        PumpModel {
            direction,
            filter: FilterModel::start(Self::effective_skip(direction, skip_count)),
            phase: Phase::Reading,
            bytes: 0,
        }
    }

    /// This pump, stopped for the given reason.
    pub open spec fn stopped(self, end: PumpEnd) -> PumpModel {
        PumpModel { phase: Phase::Finished(end), ..self }
    }

    /// The transition function: the state after `event` and the action it
    /// calls for.
    pub open spec fn step(self, event: PumpEvent) -> (PumpModel, PumpAction) {
        match (self.phase, event) {
            (Phase::Finished(_), _) => (self, PumpAction::Nothing),
            (_, PumpEvent::Cancel) => (
                self.stopped(PumpEnd::Cancelled),
                PumpAction::Stop(PumpEnd::Cancelled),
            ),
            (Phase::Reading, PumpEvent::Chunk(n)) => {
                if n == 0 {
                    (self.stopped(PumpEnd::Eof), PumpAction::Stop(PumpEnd::Eof))
                } else if self.filter.verdict() == Verdict::Discard {
                    (PumpModel { filter: self.filter.next(), ..self }, PumpAction::Read)
                } else {
                    (
                        PumpModel { filter: self.filter.next(), phase: Phase::Writing(n), ..self },
                        PumpAction::Write(n),
                    )
                }
            },
            (Phase::Reading, PumpEvent::ReadFailed) => (
                self.stopped(PumpEnd::ReadFailed),
                PumpAction::Stop(PumpEnd::ReadFailed),
            ),
            (Phase::Writing(n), PumpEvent::Written) => (
                PumpModel {
                    phase: Phase::Reading,
                    bytes: saturating_sum(self.bytes, n as nat),
                    ..self
                },
                PumpAction::Read,
            ),
            (Phase::Writing(_), PumpEvent::WriteFailed) => (
                self.stopped(PumpEnd::WriteFailed),
                PumpAction::Stop(PumpEnd::WriteFailed),
            ),
            _ => (self, PumpAction::Nothing),
        }
    }

    /// What a stopped pump tells its session: why it stopped and the bytes
    /// it had written.
    pub open spec fn report(self) -> Option<PumpReport>
        recommends
            self.wf(),
    {
        match self.phase {
            Phase::Finished(end) => Some(PumpReport { end, bytes: self.bytes as u64 }),
            _ => None,
        }
    }

    /// The bytes that the outstanding write has to send, where the chunk
    /// was read into the front of `buffer`: the whole chunk, unchanged.
    pub open spec fn pending(self, buffer: Seq<u8>) -> Option<Seq<u8>> {
        match self.phase {
            Phase::Writing(n) => if n <= buffer.len() {
                Some(buffer.subrange(0, n as int))
            } else {
                None
            },
            _ => None,
        }
    }

    /// The pump fed with `chunks` in order, every write going through: the
    /// state it ends in and the chunks it has written.
    pub open spec fn relay(self, chunks: Seq<Seq<u8>>) -> (PumpModel, Seq<Seq<u8>>)
        decreases chunks.len(),
    {
        if chunks.len() == 0 {
            (self, Seq::empty())
        } else {
            let (read, action) = self.step(PumpEvent::Chunk(chunks[0].len() as usize));
            match action {
                PumpAction::Write(n) => {
                    let (written, _) = read.step(PumpEvent::Written);
                    let (end, out) = written.relay(chunks.drop_first());
                    (end, seq![chunks[0].subrange(0, n as int)] + out)
                },
                _ => read.relay(chunks.drop_first()),
            }
        }
    }
}

/// State of one direction of a relayed connection.
#[derive(Clone, Copy, Debug)]
pub struct Pump {
    direction: Direction,
    filter: SkipFilter,
    phase: Phase,
    bytes: u64,
}

impl View for Pump {
    type V = PumpModel;

    closed spec fn view(&self) -> PumpModel {
        PumpModel {
            direction: self.direction,
            filter: self.filter@,
            phase: self.phase,
            bytes: self.bytes as nat,
        }
    }
}

impl Pump {
    /// A pump about to make its first read. Only the pump towards the
    /// destination drops chunks; the other one forwards everything.
    pub fn new(direction: Direction, skip_count: usize) -> (p: Pump)
        ensures
            p@ == PumpModel::start(direction, skip_count as nat),
            p@.wf(),
    {
        let effective: usize = match direction {
            Direction::ClientToDestination => skip_count,
            Direction::DestinationToClient => 0,
        };
        Pump { direction, filter: SkipFilter::new(effective), phase: Phase::Reading, bytes: 0 }
    }

    /// The direction this pump serves.
    pub fn direction(&self) -> (d: Direction)
        ensures
            d == self@.direction,
    {
        self.direction
    }

    /// What the pump is waiting for.
    pub fn phase(&self) -> (p: Phase)
        ensures
            p == self@.phase,
    {
        self.phase
    }

    /// Bytes written to the sink so far. Dropped chunks do not count.
    pub fn bytes_forwarded(&self) -> (n: u64)
        ensures
            n == self@.bytes,
    {
        self.bytes
    }

    /// Number of chunks dropped so far.
    pub fn chunks_skipped(&self) -> (n: usize)
        ensures
            n == self@.filter.skipped,
            n <= self@.filter.skip_count,
    {
        self.filter.skipped()
    }

    /// Whether the pump has stopped.
    pub fn is_finished(&self) -> (b: bool)
        ensures
            b == (self@.phase is Finished),
    {
        match self.phase {
            Phase::Finished(_) => true,
            _ => false,
        }
    }

    /// What the pump tells its session once it has stopped; `None` while
    /// it runs.
    pub fn report(&self) -> (r: Option<PumpReport>)
        ensures
            r == self@.report(),
            r.is_some() <==> self@.phase is Finished,
            r.is_some() ==> r.unwrap().bytes == self@.bytes,
    {
        match self.phase {
            Phase::Finished(end) => Some(PumpReport { end, bytes: self.bytes }),
            _ => None,
        }
    }

    /// The bytes that the outstanding write has to send, where the chunk
    /// was read into the front of `buffer`; `None` if no write is
    /// outstanding or the buffer is shorter than the chunk.
    pub fn pending_write<'a>(&self, buffer: &'a [u8]) -> (chunk: Option<&'a [u8]>)
        ensures
            match chunk {
                Some(c) => self@.pending(buffer@) == Some(c@),
                None => self@.pending(buffer@).is_none(),
            },
    {
        match self.phase {
            Phase::Writing(n) => if n <= buffer.len() {
                Some(vstd::slice::slice_subrange(buffer, 0, n))
            } else {
                None
            },
            _ => None,
        }
    }

    /// Takes in one event and answers with the action to perform.
    pub fn step(&mut self, event: PumpEvent) -> (action: PumpAction)
        ensures
            old(self)@.wf(),
            (final(self)@, action) == old(self)@.step(event),
            final(self)@.wf(),
    {
        proof {
            use_type_invariant(&self.filter);
        }
        match self.phase {
            Phase::Finished(_) => PumpAction::Nothing,
            Phase::Reading => match event {
                PumpEvent::Cancel => self.stop(PumpEnd::Cancelled),
                PumpEvent::ReadFailed => self.stop(PumpEnd::ReadFailed),
                PumpEvent::Chunk(n) => {
                    if n == 0 {
                        self.stop(PumpEnd::Eof)
                    } else {
                        match self.filter.decide() {
                            Verdict::Discard => PumpAction::Read,
                            Verdict::Forward => {
                                self.phase = Phase::Writing(n);
                                PumpAction::Write(n)
                            },
                        }
                    }
                },
                _ => PumpAction::Nothing,
            },
            Phase::Writing(n) => match event {
                PumpEvent::Cancel => self.stop(PumpEnd::Cancelled),
                PumpEvent::WriteFailed => self.stop(PumpEnd::WriteFailed),
                PumpEvent::Written => {
                    let grown: u64 = n as u64;
                    self.bytes = if u64::MAX - self.bytes < grown {
                        u64::MAX
                    } else {
                        self.bytes + grown
                    };
                    self.phase = Phase::Reading;
                    PumpAction::Read
                },
                _ => PumpAction::Nothing,
            },
        }
    }

    fn stop(&mut self, end: PumpEnd) -> (action: PumpAction)
        ensures
            final(self)@ == old(self)@.stopped(end),
            action == PumpAction::Stop(end),
    {
        self.phase = Phase::Finished(end);
        PumpAction::Stop(end)
    }
}

/// When the source reports end of stream to a reading pump, the pump stops
/// in that very step and asks for the sink's write half to be shut down, so
/// that the far side sees the end too. Nothing it has counted changes.
pub proof fn lemma_eof_stops_pump(m: PumpModel)
    requires
        m.phase == Phase::Reading,
    ensures
        m.step(PumpEvent::Chunk(0)) == (m.stopped(PumpEnd::Eof), PumpAction::Stop(PumpEnd::Eof)),
        m.step(PumpEvent::Chunk(0)).0.phase == Phase::Finished(PumpEnd::Eof),
        m.step(PumpEvent::Chunk(0)).0.bytes == m.bytes,
        m.step(PumpEvent::Chunk(0)).0.filter == m.filter,
{
}

/// A stopped pump stays stopped and asks for nothing more.
pub proof fn lemma_finished_is_final(m: PumpModel, event: PumpEvent)
    requires
        m.phase is Finished,
    ensures
        m.step(event) == (m, PumpAction::Nothing),
{
}

/// Any pump that has not stopped yet stops when cancelled.
pub proof fn lemma_cancel_stops_pump(m: PumpModel)
    requires
        !(m.phase is Finished),
    ensures
        m.step(PumpEvent::Cancel) == (
            m.stopped(PumpEnd::Cancelled),
            PumpAction::Stop(PumpEnd::Cancelled),
        ),
{
}

/// A reading pump fed with non-empty chunks whose writes all go through
/// writes exactly the chunks its filter passes, each one whole, ends up
/// reading again, and has counted exactly the bytes it wrote.
pub proof fn lemma_relay_follows_filter(m: PumpModel, chunks: Seq<Seq<u8>>)
    requires
        m.wf(),
        m.phase == Phase::Reading,
        forall|i: int| 0 <= i < chunks.len() ==> 0 < #[trigger] chunks[i].len() <= usize::MAX,
    ensures
        m.relay(chunks).1 == m.filter.passed(chunks),
        m.relay(chunks).0.phase == Phase::Reading,
        m.relay(chunks).0.direction == m.direction,
        m.relay(chunks).0.filter == m.filter.after(chunks.len()),
        m.relay(chunks).0.bytes == saturating_sum(m.bytes, total_len(m.filter.passed(chunks))),
        m.relay(chunks).0.wf(),
    decreases chunks.len(),
{
    if chunks.len() > 0 {
        let head = chunks[0];
        let tail = chunks.drop_first();
        let n = head.len() as usize;
        let (read, action) = m.step(PumpEvent::Chunk(n));
        assert forall|i: int| 0 <= i < tail.len() implies 0 < #[trigger] tail[i].len()
            <= usize::MAX by {
            assert(tail[i] == chunks[i + 1]);
        }
        if m.filter.verdict() == Verdict::Forward {
            let (written, _) = read.step(PumpEvent::Written);
            lemma_relay_follows_filter(written, tail);
            assert(head.subrange(0, n as int) =~= head);
            let rest = m.filter.next().passed(tail);
            let out = seq![head] + rest;
            assert(out.drop_first() =~= rest);
            assert(total_len(out) == head.len() + total_len(rest));
        } else {
            lemma_relay_follows_filter(read, tail);
        }
    }
}

/// A fresh pump with skip count `k`, fed with non-empty chunks whose writes
/// all go through: towards the destination it drops exactly the first `k`
/// chunks and writes the rest unchanged and in order; towards the client,
/// or with `k == 0`, it writes everything it reads.
pub proof fn lemma_pump_skips_exact_prefix(direction: Direction, k: nat, chunks: Seq<Seq<u8>>)
    requires
        forall|i: int| 0 <= i < chunks.len() ==> 0 < #[trigger] chunks[i].len() <= usize::MAX,
    ensures
        ({
            let skip = PumpModel::effective_skip(direction, k);
            let (end, out) = PumpModel::start(direction, k).relay(chunks);
            &&& skip <= chunks.len() ==> out == chunks.subrange(skip as int, chunks.len() as int)
            &&& skip > chunks.len() ==> out == Seq::<Seq<u8>>::empty()
            &&& skip == 0 ==> out == chunks && out.flatten() == chunks.flatten()
            &&& end.bytes == saturating_sum(0, total_len(out))
            &&& end.filter.skipped == if chunks.len() <= skip {
                chunks.len()
            } else {
                skip
            }
        }),
{
    let m = PumpModel::start(direction, k);
    lemma_relay_follows_filter(m, chunks);
    lemma_skip_drops_exact_prefix(PumpModel::effective_skip(direction, k), chunks);
    lemma_counter_is_clamped(m.filter, chunks.len());
}

} // verus!
