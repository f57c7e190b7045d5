use vstd::prelude::*;

verus! {

/// The most bytes that one read of a relay direction takes.
pub const RELAY_BUFFER_SIZE: usize = 8192;

/// What one non-blocking read from an endpoint gave.
#[derive(Clone, Copy, Debug, PartialEq, Eq, Structural)]
pub enum ReadOutcome {
    /// This many bytes were read into the buffer; none means the other side closed.
    Bytes(usize),
    /// Nothing to read yet.
    WouldBlock,
    /// A hard I/O error.
    Failed,
}

/// What writing and flushing the forwarded bytes gave.
#[derive(Clone, Copy, Debug, PartialEq, Eq, Structural)]
pub enum WriteOutcome {
    Written,
    Failed,
}

/// Why a relay direction stopped.
#[derive(Clone, Copy, Debug, PartialEq, Eq, Structural)]
pub enum RelayEnd {
    /// The source closed its side: a zero-length read.
    Closed,
    /// A read or a write failed; the whole tunnel is to be torn down.
    IoError,
}

/// Where a relay direction stands.
#[derive(Clone, Copy, Debug, PartialEq, Eq, Structural)]
pub enum RelayPhase {
    /// Waiting to read from the source.
    Reading,
    /// Waiting for the bytes last read to be written to the sink.
    Writing,
    Ended(RelayEnd),
}

/// What the driver of a relay direction is to do next.
#[derive(Debug)]
pub enum RelayAction {
    /// Read from the source into a buffer of `RELAY_BUFFER_SIZE` bytes.
    Read,
    /// Write these bytes to the sink and flush it.
    Write(Vec<u8>),
    /// Release the sink, wait briefly, then read again.
    Backoff,
    /// Stop relaying in this direction.
    Stop(RelayEnd),
}

/// The abstract state of a relay direction: its phase, every byte read from the
/// source, every byte known written to the sink, and the bytes being written.
pub struct RelayView {
    pub phase: RelayPhase,
    pub received: Seq<u8>,
    pub delivered: Seq<u8>,
    pub pending: Seq<u8>,
}

/// The state after a read with outcome `outcome` into a buffer holding `buffer`.
pub open spec fn after_read(v: RelayView, outcome: ReadOutcome, buffer: Seq<u8>) -> RelayView {
    match outcome {
        ReadOutcome::Bytes(n) => if n == 0 {
            RelayView { phase: RelayPhase::Ended(RelayEnd::Closed), ..v }
        } else {
            RelayView {
                phase: RelayPhase::Writing,
                received: v.received + buffer.take(n as int),
                pending: buffer.take(n as int),
                ..v
            }
        },
        ReadOutcome::WouldBlock => v,
        ReadOutcome::Failed => RelayView { phase: RelayPhase::Ended(RelayEnd::IoError), ..v },
    }
}

/// The state after writing the pending bytes with outcome `outcome`.
pub open spec fn after_write(v: RelayView, outcome: WriteOutcome) -> RelayView {
    match outcome {
        WriteOutcome::Written => RelayView {
            phase: RelayPhase::Reading,
            delivered: v.delivered + v.pending,
            pending: Seq::empty(),
            ..v
        },
        WriteOutcome::Failed => RelayView { phase: RelayPhase::Ended(RelayEnd::IoError), ..v },
    }
}

/// A fresh relay direction.
pub open spec fn relay_start() -> RelayView {
    RelayView {
        phase: RelayPhase::Reading,
        received: Seq::empty(),
        delivered: Seq::empty(),
        pending: Seq::empty(),
    }
}

/// The bytes of `chunks`, one after another.
pub open spec fn concat_chunks(chunks: Seq<Seq<u8>>) -> Seq<u8>
    decreases chunks.len(),
{
    if chunks.len() == 0 {
        Seq::empty()
    } else {
        concat_chunks(chunks.drop_last()) + chunks.last()
    }
}

/// A direction driven through `chunks` from `v`: for an empty chunk the read
/// would block; for any other, the chunk is read whole and written successfully.
pub open spec fn relay_run(v: RelayView, chunks: Seq<Seq<u8>>) -> RelayView
    decreases chunks.len(),
{
    if chunks.len() == 0 {
        v
    } else {
        let prev = relay_run(v, chunks.drop_last());
        let c = chunks.last();
        if c.len() == 0 {
            after_read(prev, ReadOutcome::WouldBlock, c)
        } else {
            after_write(after_read(prev, ReadOutcome::Bytes(c.len() as usize), c), WriteOutcome::Written)
        }
    }
}

/// Bytes pass a relay direction whole and in order: driven through any run of
/// reads (each at most a buffer long, or blocking) whose writes succeed, it has
/// delivered exactly the bytes read, one chunk after another, and waits to read;
/// a zero-length read then ends it cleanly with nothing lost.
pub proof fn lemma_relay_in_order(chunks: Seq<Seq<u8>>)
    requires
        forall|i: int| 0 <= i < chunks.len() ==> (#[trigger] chunks[i]).len() <= RELAY_BUFFER_SIZE,
    ensures
        relay_run(relay_start(), chunks) == (RelayView {
            phase: RelayPhase::Reading,
            received: concat_chunks(chunks),
            delivered: concat_chunks(chunks),
            pending: Seq::empty(),
        }),
        after_read(relay_run(relay_start(), chunks), ReadOutcome::Bytes(0), Seq::empty()).phase
            == RelayPhase::Ended(RelayEnd::Closed),
        after_read(
            relay_run(relay_start(), chunks),
            ReadOutcome::Bytes(0),
            Seq::empty(),
        ).delivered == concat_chunks(chunks),
    decreases chunks.len(),
{
    if chunks.len() > 0 {
        let prefix = chunks.drop_last();
        assert forall|i: int| 0 <= i < prefix.len() implies (#[trigger] prefix[i]).len()
            <= RELAY_BUFFER_SIZE by {
            assert(prefix[i] == chunks[i]);
        }
        lemma_relay_in_order(prefix);
        let c = chunks.last();
        assert(c == chunks[chunks.len() - 1]);
        if c.len() == 0 {
            assert(concat_chunks(chunks.drop_last()) + c =~= concat_chunks(chunks.drop_last()));
        } else {
            assert((c.len() as usize) as int == c.len());
            assert(c.take(c.len() as int) =~= c);
        }
    }
}

/// The first `n` bytes of `buffer`.
fn prefix_of(buffer: &[u8], n: usize) -> (r: Vec<u8>)
    requires
        n <= buffer@.len(),
    ensures
        r@ == buffer@.take(n as int),
{
    let mut r: Vec<u8> = Vec::new();
    let mut i: usize = 0;
    while i < n
        invariant
            i <= n,
            n <= buffer@.len(),
            r@ == buffer@.take(i as int),
        decreases n - i,
    {
        r.push(buffer[i]);
        i = i + 1;
        assert(buffer@.take(i as int) == buffer@.take(i - 1).push(buffer@[i - 1]));
    }
    r
}

/// One direction of a tunnel relay, from a source endpoint to a sink: it decides
/// what to do after each read and write, and records the bytes that pass.
pub struct RelayDirection {
    phase: RelayPhase,
    pending: Vec<u8>,
    received: Ghost<Seq<u8>>,
    delivered: Ghost<Seq<u8>>,
}

impl View for RelayDirection {
    type V = RelayView;

    closed spec fn view(&self) -> RelayView {
        RelayView {
            phase: self.phase,
            received: self.received@,
            delivered: self.delivered@,
            pending: self.pending@,
        }
    }
}

/// Bytes are delivered in the order read: what was written is what was read,
/// less the bytes still being written.
pub open spec fn relay_wf(v: RelayView) -> bool {
    &&& v.phase == RelayPhase::Reading ==> v.received == v.delivered && v.pending.len() == 0
    &&& v.phase == RelayPhase::Writing ==> v.received == v.delivered + v.pending
    &&& v.delivered.len() <= v.received.len()
    &&& v.delivered == v.received.take(v.delivered.len() as int)
}

impl RelayDirection {
    pub closed spec fn wf(&self) -> bool {
        relay_wf(self@)
    }

    /// A direction that has relayed nothing and waits to read.
    pub fn new() -> (r: RelayDirection)
        ensures
            r@ == relay_start(),
            r.wf(),
    {
        let r = RelayDirection {
            phase: RelayPhase::Reading,
            pending: Vec::new(),
            received: Ghost(Seq::empty()),
            delivered: Ghost(Seq::empty()),
        };
        assert(r@.delivered == r@.received.take(0));
        r
    }

    /// Where the direction stands.
    pub fn phase(&self) -> (r: RelayPhase)
        ensures
            r == self@.phase,
    {
        self.phase
    }

    /// The decision after a read from the source into `buffer`: a zero-length read
    /// ends the direction cleanly, read bytes go to the sink, a read that would
    /// block backs off, and a failed read ends the direction with an error.
    pub fn on_read(&mut self, outcome: ReadOutcome, buffer: &[u8]) -> (r: RelayAction)
        requires
            old(self).wf(),
            old(self)@.phase == RelayPhase::Reading,
            outcome matches ReadOutcome::Bytes(n) ==> n <= buffer@.len(),
        ensures
            final(self).wf(),
            final(self)@ == after_read(old(self)@, outcome, buffer@),
            match outcome {
                ReadOutcome::Bytes(n) => if n == 0 {
                    r == RelayAction::Stop(RelayEnd::Closed)
                } else {
                    r matches RelayAction::Write(data) && data@ == buffer@.take(n as int)
                },
                ReadOutcome::WouldBlock => r == RelayAction::Backoff,
                ReadOutcome::Failed => r == RelayAction::Stop(RelayEnd::IoError),
            },
    {
        match outcome {
            ReadOutcome::Bytes(n) => {
                if n == 0 {
                    self.phase = RelayPhase::Ended(RelayEnd::Closed);
                    RelayAction::Stop(RelayEnd::Closed)
                } else {
                    let data = prefix_of(buffer, n);
                    let copy = prefix_of(buffer, n);
                    self.received = Ghost(self.received@ + data@);
                    self.pending = copy;
                    self.phase = RelayPhase::Writing;
                    assert(self@.delivered == self@.received.take(self@.delivered.len() as int));
                    RelayAction::Write(data)
                }
            },
            ReadOutcome::WouldBlock => RelayAction::Backoff,
            ReadOutcome::Failed => {
                self.phase = RelayPhase::Ended(RelayEnd::IoError);
                RelayAction::Stop(RelayEnd::IoError)
            },
        }
    }

    /// The decision after writing the pending bytes to the sink: read again once
    /// they are written, or end the direction with an error.
    pub fn on_write(&mut self, outcome: WriteOutcome) -> (r: RelayAction)
        requires
            old(self).wf(),
            old(self)@.phase == RelayPhase::Writing,
        ensures
            final(self).wf(),
            final(self)@ == after_write(old(self)@, outcome),
            outcome == WriteOutcome::Written ==> r == RelayAction::Read,
            outcome == WriteOutcome::Failed ==> r == RelayAction::Stop(RelayEnd::IoError),
    {
        match outcome {
            WriteOutcome::Written => {
                self.delivered = Ghost(self.delivered@ + self.pending@);
                self.pending = Vec::new();
                self.phase = RelayPhase::Reading;
                assert(self@.received.take(self@.delivered.len() as int) == self@.received);
                RelayAction::Read
            },
            WriteOutcome::Failed => {
                self.phase = RelayPhase::Ended(RelayEnd::IoError);
                RelayAction::Stop(RelayEnd::IoError)
            },
        }
    }
}

} // verus!
