//! Coalescing of PTY output: bytes from many small reads are gathered into
//! one batch, which is emitted once it has been open for the batch window or
//! has taken the maximum number of reads.

use vstd::prelude::*;

verus! {

/// How long a batch stays open, in microseconds, before it is due.
pub const BATCH_WINDOW_US: u64 = 4000;

/// The number of reads after which a batch is due, whatever its age.
pub const MAX_BATCH_READS: usize = 100;

/// Bytes read from the PTY and not yet emitted, with the time of the first
/// read of the batch and the number of reads since then.
pub struct OutputBatch {
    buffer: Vec<u8>,
    opened_at: Option<u64>,
    reads: usize,
}

impl OutputBatch {
    /// The bytes held, in the order they were read.
    pub closed spec fn pending(&self) -> Seq<u8> {
        self.buffer@
    }

    /// When the batch was opened (microseconds), if it is open.
    pub closed spec fn opened_at(&self) -> Option<u64> {
        self.opened_at
    }

    /// The number of reads taken since the batch opened.
    pub closed spec fn reads(&self) -> nat {
        self.reads as nat
    }

    /// A batch is open exactly when it holds bytes, and then it has taken at
    /// least one read.
    pub open spec fn wf(&self) -> bool {
        &&& (self.pending().len() > 0 <==> self.opened_at() is Some)
        &&& (self.opened_at() is Some <==> self.reads() > 0)
    }

    /// Whether the batch must be emitted at time `now`: it is open, and
    /// either the window has passed since it opened or it has taken the
    /// maximum number of reads.
    pub open spec fn due_at(&self, now: u64) -> bool {
        match self.opened_at() {
            Some(t) => now >= t + BATCH_WINDOW_US || self.reads() >= MAX_BATCH_READS,
            None => false,
        }
    }

    /// An empty, closed batch.
    pub fn new() -> (r: Self)
        ensures
            r.wf(),
            r.pending() == Seq::<u8>::empty(),
            r.opened_at() is None,
            r.reads() == 0,
    {
        OutputBatch { buffer: Vec::new(), opened_at: None, reads: 0 }
    }

    /// Whether a batch is open.
    pub fn is_open(&self) -> (r: bool)
        ensures
            r == self.opened_at() is Some,
    {
        self.opened_at.is_some()
    }

    /// Adds the bytes of one read made at time `now`. The first read opens
    /// the batch; an empty read is no read and changes nothing.
    pub fn record_read(&mut self, data: &[u8], now: u64)
        requires
            old(self).wf(),
        ensures
            final(self).wf(),
            data@.len() == 0 ==> *final(self) == *old(self),
            data@.len() > 0 ==> {
                &&& final(self).pending() == old(self).pending() + data@
                &&& final(self).opened_at() == (match old(self).opened_at() {
                    Some(t) => Some(t),
                    None => Some(now),
                })
                &&& final(self).reads() == if old(self).reads() < usize::MAX {
                    old(self).reads() + 1
                } else {
                    old(self).reads()
                }
            },
    {
        if data.len() == 0 {
            return ;
        }
        let ghost before = self.buffer@;
        let mut i: usize = 0;
        while i < data.len()
            invariant
                0 <= i <= data@.len(),
                self.buffer@ == before + data@.subrange(0, i as int),
                self.opened_at == old(self).opened_at,
                self.reads == old(self).reads,
            decreases data@.len() - i,
        {
            self.buffer.push(data[i]);
            i = i + 1;
        }
        assert(data@.subrange(0, data@.len() as int) == data@);
        if self.opened_at.is_none() {
            self.opened_at = Some(now);
        }
        self.reads = self.reads.saturating_add(1);
    }

    /// Whether the batch is due at time `now`.
    pub fn should_flush(&self, now: u64) -> (r: bool)
        ensures
            r == self.due_at(now),
    {
        match self.opened_at {
            Some(t) => now.saturating_sub(t) >= BATCH_WINDOW_US || self.reads >= MAX_BATCH_READS,
            None => false,
        }
    }

    /// Hands out the bytes held, if any, and closes the batch.
    pub fn take_pending(&mut self) -> (r: Option<Vec<u8>>)
        requires
            old(self).wf(),
        ensures
            final(self).wf(),
            final(self).pending() == Seq::<u8>::empty(),
            final(self).opened_at() is None,
            final(self).reads() == 0,
            old(self).pending().len() == 0 ==> r is None,
            old(self).pending().len() > 0 ==> r is Some && r->Some_0@ == old(self).pending(),
    {
        if self.buffer.len() == 0 {
            return None;
        }
        let mut out: Vec<u8> = Vec::new();
        std::mem::swap(&mut out, &mut self.buffer);
        self.opened_at = None;
        self.reads = 0;
        Some(out)
    }

    /// Hands out the bytes held and closes the batch if it is due at `now`;
    /// otherwise changes nothing.
    pub fn flush_if_due(&mut self, now: u64) -> (r: Option<Vec<u8>>)
        requires
            old(self).wf(),
        ensures
            final(self).wf(),
            !old(self).due_at(now) ==> r is None && *final(self) == *old(self),
            old(self).due_at(now) ==> {
                &&& r is Some
                &&& r->Some_0@ == old(self).pending()
                &&& final(self).pending() == Seq::<u8>::empty()
                &&& final(self).opened_at() is None
                &&& final(self).reads() == 0
            },
    {
        if self.should_flush(now) {
            self.take_pending()
        } else {
            None
        }
    }
}

/// Reads that all come within the window after a batch opened, fewer than
/// the maximum in number, never make it due: they end up in one batch.
pub proof fn lemma_reads_within_window_coalesce(b: OutputBatch, now: u64)
    requires
        b.wf(),
        b.opened_at() is Some,
        now < b.opened_at()->Some_0 + BATCH_WINDOW_US,
        b.reads() < MAX_BATCH_READS,
    ensures
        !b.due_at(now),
{
}

/// Once the window has passed since a batch opened, it is due: a read that
/// comes after a long pause lands in a new batch.
pub proof fn lemma_batch_due_after_window(b: OutputBatch, now: u64)
    requires
        b.wf(),
        b.opened_at() is Some,
        now >= b.opened_at()->Some_0 + BATCH_WINDOW_US,
    ensures
        b.due_at(now),
{
}

} // verus!
