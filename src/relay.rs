//! One direction of a relay: bytes read from a source socket wait here until
//! the sink socket takes them.

use vstd::prelude::*;

verus! {

/// The most bytes taken from a socket in one read, so that one busy
/// connection cannot starve the others sharing the loop.
pub const MAX_READ_CHUNK: usize = 16384;

/// Above this many buffered bytes the source is no longer read.
pub const HIGH_WATER_MARK: usize = 65536;

/// The mathematical state of a pump.
pub struct PumpView {
    /// Bytes read from the source and not yet written to the sink.
    pub buffered: Seq<u8>,
    /// The source reported end of stream.
    pub read_closed: bool,
    /// Every byte ever read from the source, in order.
    pub received: Seq<u8>,
    /// Every byte ever written to the sink, in order.
    pub delivered: Seq<u8>,
}

impl PumpView {
    /// What was received is exactly what was delivered followed by what waits.
    pub open spec fn wf(self) -> bool {
        self.received == self.delivered + self.buffered
    }

    /// How many bytes the next read from the source may take.
    pub open spec fn budget(self) -> int {
        if self.read_closed || self.buffered.len() >= HIGH_WATER_MARK {
            0
        } else if HIGH_WATER_MARK - self.buffered.len() < MAX_READ_CHUNK {
            HIGH_WATER_MARK - self.buffered.len()
        } else {
            MAX_READ_CHUNK as int
        }
    }

    /// Nothing more will come from the source and nothing waits for the sink.
    pub open spec fn drained(self) -> bool {
        self.read_closed && self.buffered.len() == 0
    }
}

/// A pump that has moved nothing yet.
pub open spec fn fresh_pump() -> PumpView {
    PumpView {
        buffered: Seq::empty(),
        read_closed: false,
        received: Seq::empty(),
        delivered: Seq::empty(),
    }
}

/// A unidirectional byte pump with backpressure and end-of-stream tracking.
pub struct Pump {
    buf: Vec<u8>,
    read_closed: bool,
    received: Ghost<Seq<u8>>,
    delivered: Ghost<Seq<u8>>,
}

impl View for Pump {
    type V = PumpView;

    closed spec fn view(&self) -> PumpView {
        PumpView {
            buffered: self.buf@,
            read_closed: self.read_closed,
            received: self.received@,
            delivered: self.delivered@,
        }
    }
}

impl Pump {
    pub open spec fn wf(&self) -> bool {
        self@.wf()
    }

    /// A pump that has moved nothing yet.
    pub fn new() -> (r: Pump)
        ensures
            r.wf(),
            r@ == fresh_pump(),
    {
        Pump {
            buf: Vec::new(),
            read_closed: false,
            received: Ghost(Seq::empty()),
            delivered: Ghost(Seq::empty()),
        }
    }

    /// How many bytes the next read from the source may take: none once the
    /// source has ended or the buffer has reached the high-water mark.
    pub fn read_budget(&self) -> (r: usize)
        ensures
            r == self@.budget(),
    {
        if self.read_closed || self.buf.len() >= HIGH_WATER_MARK {
            0
        } else if HIGH_WATER_MARK - self.buf.len() < MAX_READ_CHUNK {
            HIGH_WATER_MARK - self.buf.len()
        } else {
            MAX_READ_CHUNK
        }
    }

    /// Queues bytes just read from the source. The read took no more than the
    /// budget, so the buffer stays within the high-water mark.
    pub fn accept(&mut self, data: &[u8])
        requires
            old(self).wf(),
            data@.len() <= old(self)@.budget(),
        ensures
            final(self).wf(),
            final(self)@.buffered == old(self)@.buffered + data@,
            final(self)@.received == old(self)@.received + data@,
            final(self)@.delivered == old(self)@.delivered,
            final(self)@.read_closed == old(self)@.read_closed,
            final(self)@.buffered.len() <= HIGH_WATER_MARK || data@.len() == 0,
    {
        self.preload(data);
    }

    /// Queues bytes that belong to the stream but were read before the pump
    /// existed, whatever the budget.
    pub fn preload(&mut self, data: &[u8])
        requires
            old(self).wf(),
        ensures
            final(self).wf(),
            final(self)@.buffered == old(self)@.buffered + data@,
            final(self)@.received == old(self)@.received + data@,
            final(self)@.delivered == old(self)@.delivered,
            final(self)@.read_closed == old(self)@.read_closed,
    {
        let mut i: usize = 0;
        while i < data.len()
            invariant
                i <= data@.len(),
                self.buf@ == old(self).buf@ + data@.subrange(0, i as int),
                self.read_closed == old(self).read_closed,
                self.received == old(self).received,
                self.delivered == old(self).delivered,
            decreases data@.len() - i,
        {
            self.buf.push(data[i]);
            i = i + 1;
            assert(self.buf@ =~= old(self).buf@ + data@.subrange(0, i as int));
        }
        assert(data@.subrange(0, data@.len() as int) =~= data@);
        self.received = Ghost(self.received@ + data@);
        assert(self@.received =~= self@.delivered + self@.buffered);
    }

    /// Records that the source reported end of stream.
    pub fn close_read(&mut self)
        requires
            old(self).wf(),
        ensures
            final(self).wf(),
            final(self)@ == (PumpView { read_closed: true, ..old(self)@ }),
    {
        self.read_closed = true;
    }

    /// The bytes waiting for the sink, oldest first.
    pub fn pending(&self) -> (r: &[u8])
        ensures
            r@ == self@.buffered,
    {
        self.buf.as_slice()
    }

    /// Records that the sink took the first `n` waiting bytes.
    pub fn consume(&mut self, n: usize)
        requires
            old(self).wf(),
            n <= old(self)@.buffered.len(),
        ensures
            final(self).wf(),
            final(self)@.buffered == old(self)@.buffered.subrange(
                n as int,
                old(self)@.buffered.len() as int,
            ),
            final(self)@.delivered == old(self)@.delivered + old(self)@.buffered.subrange(
                0,
                n as int,
            ),
            final(self)@.received == old(self)@.received,
            final(self)@.read_closed == old(self)@.read_closed,
    {
        let ghost sent = self.buf@.subrange(0, n as int);
        let mut rest = self.buf.split_off(n);
        std::mem::swap(&mut self.buf, &mut rest);
        self.delivered = Ghost(self.delivered@ + sent);
        assert(self@.received =~= self@.delivered + self@.buffered);
    }

    /// The source has ended and nothing waits for the sink.
    pub fn is_drained(&self) -> (r: bool)
        ensures
            r == self@.drained(),
    {
        self.read_closed && self.buf.len() == 0
    }
}

/// Once a pump is drained, the sink has been given exactly the bytes the
/// source produced, in order, however reads and writes were split.
pub proof fn lemma_relay_integrity(p: PumpView)
    requires
        p.wf(),
        p.drained(),
    ensures
        p.delivered == p.received,
{
    assert(p.delivered + p.buffered =~= p.delivered);
}

/// At any moment the sink has been given a prefix of what the source
/// produced, and the rest is waiting in order.
pub proof fn lemma_delivered_is_prefix(p: PumpView)
    requires
        p.wf(),
    ensures
        p.delivered.len() <= p.received.len(),
        p.delivered == p.received.subrange(0, p.delivered.len() as int),
        p.buffered == p.received.subrange(p.delivered.len() as int, p.received.len() as int),
{
    assert(p.delivered =~= p.received.subrange(0, p.delivered.len() as int));
    assert(p.buffered =~= p.received.subrange(p.delivered.len() as int, p.received.len() as int));
}

/// A pump at or above the high-water mark issues no read until it drains
/// below it, and an accepted read never takes it above the mark.
pub proof fn lemma_backpressure(p: PumpView, n: int)
    requires
        0 <= n <= p.budget(),
    ensures
        p.buffered.len() >= HIGH_WATER_MARK ==> p.budget() == 0,
        n > 0 ==> p.buffered.len() + n <= HIGH_WATER_MARK,
{
}

} // verus!
