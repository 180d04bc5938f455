//! The decisions of the background PTY loop, as a state machine. The thread
//! that owns the PTY polls the command queue, the child's liveness and the
//! PTY's readiness, hands each outcome to an [`EventLoopCore`], performs the
//! action it returns and sends the events it returns, in order.

use vstd::prelude::*;
use crate::batch::OutputBatch;
use crate::events::{TerminalCommand, TerminalEvent, output_bytes, exit_count, lemma_output_bytes_concat, lemma_exit_count_concat};

verus! {

/// Poll timeout while a batch is open, in milliseconds.
pub const ACTIVE_POLL_TIMEOUT_MS: u64 = 1;

/// Poll timeout while no batch is open, in milliseconds.
pub const IDLE_POLL_TIMEOUT_MS: u64 = 10;

/// The most bytes taken from the PTY by one read.
pub const READ_CHUNK_SIZE: usize = 4096;

/// What a non-blocking receive on the command queue gave.
#[derive(Debug, Clone)]
pub enum CommandPoll {
    Received(TerminalCommand),
    Empty,
    Disconnected,
}

/// What the loop must do next with the PTY.
#[derive(Debug, Clone)]
pub enum LoopAction {
    /// Write these bytes to the PTY.
    Write(Vec<u8>),
    /// Resize the PTY window, then report the outcome.
    Resize { rows: u16, cols: u16 },
    /// Nothing to do for the command queue this round.
    Idle,
    /// Leave the loop.
    Stop,
}

/// `events` is what flushing `pending` emits: one `Output` event carrying
/// exactly those bytes, or nothing when there are none.
pub open spec fn is_flush_of(events: Seq<TerminalEvent>, pending: Seq<u8>) -> bool {
    if pending.len() == 0 {
        events.len() == 0
    } else {
        events.len() == 1 && events[0] is Output && events[0]->Output_0@ == pending
    }
}

/// The state of the background loop: the open batch, whether the loop has
/// stopped, and (as ghost state) every byte read and every event emitted.
pub struct EventLoopCore {
    batch: OutputBatch,
    stopped: bool,
    read_log: Ghost<Seq<u8>>,
    emitted: Ghost<Seq<TerminalEvent>>,
}

impl EventLoopCore {
    /// The bytes read and not yet emitted.
    pub closed spec fn pending(&self) -> Seq<u8> {
        self.batch.pending()
    }

    /// The batch of output being gathered.
    pub closed spec fn batch(&self) -> OutputBatch {
        self.batch
    }

    /// Whether the loop has stopped.
    pub closed spec fn stopped(&self) -> bool {
        self.stopped
    }

    /// Every byte read from the PTY so far, in order.
    pub closed spec fn bytes_read(&self) -> Seq<u8> {
        self.read_log@
    }

    /// Every event emitted so far, in order.
    pub closed spec fn events(&self) -> Seq<TerminalEvent> {
        self.emitted@
    }

    /// The loop's invariant: the bytes emitted followed by those pending are
    /// exactly the bytes read; a stopped loop holds nothing back; at most one
    /// exit is reported, only by a stopped loop, and as its last event.
    pub open spec fn wf(&self) -> bool {
        &&& self.batch().wf()
        &&& self.pending() == self.batch().pending()
        &&& output_bytes(self.events()) + self.pending() == self.bytes_read()
        &&& self.stopped() ==> self.pending().len() == 0
        &&& exit_count(self.events()) <= 1
        &&& exit_count(self.events()) == 1 ==> self.stopped() && self.events().last() is ProcessExited
    }

    /// The state before the first round: nothing read, nothing emitted.
    pub fn new() -> (r: Self)
        ensures
            r.wf(),
            !r.stopped(),
            r.bytes_read() == Seq::<u8>::empty(),
            r.events() == Seq::<TerminalEvent>::empty(),
            r.batch().opened_at() is None,
    {
        EventLoopCore {
            batch: OutputBatch::new(),
            stopped: false,
            read_log: Ghost(Seq::empty()),
            emitted: Ghost(Seq::empty()),
        }
    }

    /// Whether the loop has stopped.
    pub fn is_stopped(&self) -> (r: bool)
        ensures
            r == self.stopped(),
    {
        self.stopped
    }

    /// Flushes what is pending and stops the loop.
    fn finish(&mut self) -> (r: Vec<TerminalEvent>)
        requires
            old(self).wf(),
            !old(self).stopped(),
        ensures
            final(self).wf(),
            final(self).stopped(),
            is_flush_of(r@, old(self).pending()),
            exit_count(r@) == 0,
            final(self).events() == old(self).events() + r@,
            final(self).bytes_read() == old(self).bytes_read(),
    {
        let mut r: Vec<TerminalEvent> = Vec::new();
        let ghost ev0 = self.emitted@;
        match self.batch.take_pending() {
            Some(bytes) => {
                r.push(TerminalEvent::Output(bytes));
            },
            None => {},
        }
        proof {
            lemma_output_bytes_concat(ev0, r@);
            lemma_exit_count_concat(ev0, r@);
            if r@.len() == 1 {
                assert(r@.drop_first() =~= Seq::<TerminalEvent>::empty());
                assert(output_bytes(r@) == r@[0]->Output_0@ + output_bytes(r@.drop_first()));
                assert(exit_count(r@) == exit_count(r@.drop_first()));
            } else {
                assert(output_bytes(r@) == Seq::<u8>::empty());
                assert(exit_count(r@) == 0);
            }
            self.emitted = Ghost(ev0 + r@);
        }
        self.stopped = true;
        r
    }

    /// Decides on one command-queue outcome. Input and resize commands turn
    /// into actions on the PTY; a shutdown, or a queue whose senders are all
    /// gone, flushes what is pending and stops the loop. A stopped loop only
    /// answers `Stop`.
    pub fn on_command(&mut self, polled: CommandPoll) -> (r: (LoopAction, Vec<TerminalEvent>))
        requires
            old(self).wf(),
        ensures
            final(self).wf(),
            final(self).bytes_read() == old(self).bytes_read(),
            final(self).events() == old(self).events() + r.1@,
            old(self).stopped() ==> r.0 is Stop && r.1@.len() == 0 && *final(self) == *old(self),
            !old(self).stopped() ==> match polled {
                CommandPoll::Received(TerminalCommand::Input(data)) => r.0 == LoopAction::Write(data) && r.1@.len() == 0 && *final(self) == *old(self),
                CommandPoll::Received(TerminalCommand::Resize { rows, cols }) => r.0
                    == (LoopAction::Resize { rows, cols }) && r.1@.len() == 0 && *final(self)
                    == *old(self),
                CommandPoll::Empty => r.0 is Idle && r.1@.len() == 0 && *final(self)
                    == *old(self),
                _ => r.0 is Stop && final(self).stopped() && is_flush_of(
                    r.1@,
                    old(self).pending(),
                ),
            },
    {
        if self.stopped {
            return (LoopAction::Stop, Vec::new());
        }
        match polled {
            CommandPoll::Received(TerminalCommand::Input(data)) => {
                proof {
                    assert(self.emitted@ + Seq::<TerminalEvent>::empty() =~= self.emitted@);
                }
                (LoopAction::Write(data), Vec::new())
            },
            CommandPoll::Received(TerminalCommand::Resize { rows, cols }) => {
                proof {
                    assert(self.emitted@ + Seq::<TerminalEvent>::empty() =~= self.emitted@);
                }
                (LoopAction::Resize { rows, cols }, Vec::new())
            },
            CommandPoll::Empty => {
                proof {
                    assert(self.emitted@ + Seq::<TerminalEvent>::empty() =~= self.emitted@);
                }
                (LoopAction::Idle, Vec::new())
            },
            _ => {
                let events = self.finish();
                (LoopAction::Stop, events)
            },
        }
    }
    /// Reports the outcome of a resize: a `Resized` event when the PTY took
    /// the new size, nothing when it refused it or the loop has stopped.
    pub fn on_resize_done(&mut self, rows: u16, cols: u16, succeeded: bool)
        -> (r: Vec<TerminalEvent>)
        requires
            old(self).wf(),
        ensures
            final(self).wf(),
            final(self).stopped() == old(self).stopped(),
            final(self).pending() == old(self).pending(),
            final(self).batch() == old(self).batch(),
            final(self).bytes_read() == old(self).bytes_read(),
            final(self).events() == old(self).events() + r@,
            succeeded && !old(self).stopped() ==> r@.len() == 1 && r@[0] == (TerminalEvent::Resized { rows, cols }),
            !(succeeded && !old(self).stopped()) ==> r@.len() == 0,
    {
        let mut r: Vec<TerminalEvent> = Vec::new();
        let ghost ev0 = self.emitted@;
        if succeeded && !self.stopped {
            r.push(TerminalEvent::Resized { rows, cols });
        }
        proof {
            lemma_output_bytes_concat(ev0, r@);
            lemma_exit_count_concat(ev0, r@);
            if r@.len() == 1 {
                assert(r@.drop_first() =~= Seq::<TerminalEvent>::empty());
                assert(output_bytes(r@) == output_bytes(r@.drop_first()));
                assert(exit_count(r@) == exit_count(r@.drop_first()));
            } else {
                assert(output_bytes(r@) == Seq::<u8>::empty());
                assert(exit_count(r@) == 0);
            }
            self.emitted = Ghost(ev0 + r@);
        }
        r
    }

    /// Decides on the child's liveness. When the child is gone, the pending
    /// bytes are flushed, exactly one `ProcessExited` follows them, and the
    /// loop stops.
    pub fn on_liveness(&mut self, alive: bool) -> (r: Vec<TerminalEvent>)
        requires
            old(self).wf(),
        ensures
            final(self).wf(),
            final(self).bytes_read() == old(self).bytes_read(),
            final(self).events() == old(self).events() + r@,
            alive || old(self).stopped() ==> r@.len() == 0 && *final(self) == *old(self),
            !alive && !old(self).stopped() ==> {
                &&& final(self).stopped()
                &&& r@.len() >= 1
                &&& r@.last() == TerminalEvent::ProcessExited(0)
                &&& is_flush_of(r@.drop_last(), old(self).pending())
                &&& exit_count(r@) == 1
            },
    {
        if alive || self.stopped {
            proof {
                assert(self.emitted@ + Seq::<TerminalEvent>::empty() =~= self.emitted@);
            }
            return Vec::new();
        }
        let mut r = self.finish();
        let ghost flushed = r@;
        let ghost ev1 = self.emitted@;
        r.push(TerminalEvent::ProcessExited(0));
        proof {
            assert(r@.drop_last() =~= flushed);
            let tail = seq![TerminalEvent::ProcessExited(0)];
            assert(r@ =~= flushed + tail);
            assert(tail.drop_first() =~= Seq::<TerminalEvent>::empty());
            assert(exit_count(tail) == 1 + exit_count(tail.drop_first()));
            assert(output_bytes(tail) == output_bytes(tail.drop_first()));
            lemma_exit_count_concat(flushed, tail);
            lemma_exit_count_concat(old(self).emitted@, flushed);
            assert(output_bytes(tail.drop_first()) == Seq::<u8>::empty());
            assert(output_bytes(tail) =~= Seq::<u8>::empty());
            assert(output_bytes(ev1) + Seq::<u8>::empty() =~= output_bytes(ev1));
            lemma_output_bytes_concat(ev1, tail);
            lemma_exit_count_concat(ev1, tail);
            assert(ev1 + tail =~= old(self).emitted@ + r@);
            self.emitted = Ghost(ev1 + tail);
        }
        r
    }

    /// How long the next readiness poll may wait: briefly while a batch is
    /// open, so that its window is not overrun, longer while idle.
    pub fn poll_timeout_ms(&self) -> (r: u64)
        ensures
            r == if self.batch().opened_at() is Some {
                ACTIVE_POLL_TIMEOUT_MS
            } else {
                IDLE_POLL_TIMEOUT_MS
            },
    {
        if self.batch.is_open() {
            ACTIVE_POLL_TIMEOUT_MS
        } else {
            IDLE_POLL_TIMEOUT_MS
        }
    }

    /// Takes the bytes of one read made at time `now` into the batch. A
    /// stopped loop takes nothing.
    pub fn on_read(&mut self, data: &[u8], now: u64)
        requires
            old(self).wf(),
        ensures
            final(self).wf(),
            final(self).stopped() == old(self).stopped(),
            final(self).events() == old(self).events(),
            old(self).stopped() ==> *final(self) == *old(self),
            !old(self).stopped() ==> {
                &&& final(self).bytes_read() == old(self).bytes_read() + data@
                &&& final(self).pending() == old(self).pending() + data@
            },
            !old(self).stopped() && data@.len() > 0 ==> {
                &&& final(self).batch().opened_at() == (match old(self).batch().opened_at() {
                    Some(t) => Some(t),
                    None => Some(now),
                })
                &&& final(self).batch().reads() == if old(self).batch().reads() < usize::MAX {
                    old(self).batch().reads() + 1
                } else {
                    old(self).batch().reads()
                }
            },
    {
        if self.stopped {
            return ;
        }
        self.batch.record_read(data, now);
        proof {
            if data@.len() == 0 {
                assert(old(self).pending() + data@ =~= old(self).pending());
                assert(old(self).bytes_read() + data@ =~= old(self).bytes_read());
            }
            assert(output_bytes(self.emitted@) + (old(self).pending() + data@) =~= (output_bytes(
                self.emitted@,
            ) + old(self).pending()) + data@);
            self.read_log = Ghost(self.read_log@ + data@);
        }
    }

    /// Emits the batch as one `Output` event if it is due at time `now`.
    pub fn on_tick(&mut self, now: u64) -> (r: Vec<TerminalEvent>)
        requires
            old(self).wf(),
        ensures
            final(self).wf(),
            final(self).stopped() == old(self).stopped(),
            final(self).bytes_read() == old(self).bytes_read(),
            final(self).events() == old(self).events() + r@,
            !old(self).batch().due_at(now) ==> r@.len() == 0 && *final(self) == *old(self),
            old(self).batch().due_at(now) ==> {
                &&& is_flush_of(r@, old(self).pending())
                &&& r@.len() == 1
                &&& final(self).pending() == Seq::<u8>::empty()
                &&& final(self).batch().opened_at() is None
            },
    {
        let mut r: Vec<TerminalEvent> = Vec::new();
        let ghost ev0 = self.emitted@;
        match self.batch.flush_if_due(now) {
            Some(bytes) => {
                r.push(TerminalEvent::Output(bytes));
            },
            None => {},
        }
        proof {
            lemma_output_bytes_concat(ev0, r@);
            lemma_exit_count_concat(ev0, r@);
            if r@.len() == 1 {
                assert(r@.drop_first() =~= Seq::<TerminalEvent>::empty());
                assert(output_bytes(r@) == r@[0]->Output_0@ + output_bytes(r@.drop_first()));
                assert(exit_count(r@) == exit_count(r@.drop_first()));
            } else {
                assert(output_bytes(r@) == Seq::<u8>::empty());
                assert(exit_count(r@) == 0);
                assert(ev0 + r@ =~= ev0);
            }
            self.emitted = Ghost(ev0 + r@);
        }
        r
    }

    /// Stops the loop for a reason of its own (the readiness poll failed),
    /// flushing what is pending first.
    pub fn stop(&mut self) -> (r: Vec<TerminalEvent>)
        requires
            old(self).wf(),
        ensures
            final(self).wf(),
            final(self).stopped(),
            final(self).bytes_read() == old(self).bytes_read(),
            final(self).events() == old(self).events() + r@,
            old(self).stopped() ==> r@.len() == 0 && *final(self) == *old(self),
            !old(self).stopped() ==> is_flush_of(r@, old(self).pending()),
    {
        if self.stopped {
            proof {
                assert(self.emitted@ + Seq::<TerminalEvent>::empty() =~= self.emitted@);
            }
            return Vec::new();
        }
        self.finish()
    }
}

/// Once the loop has stopped, the `Output` events it emitted carry exactly
/// the bytes it read, in the order read: batching drops, reorders and
/// repeats nothing.
pub proof fn lemma_stopped_loop_emitted_every_byte(core: EventLoopCore)
    requires
        core.wf(),
        core.stopped(),
    ensures
        output_bytes(core.events()) == core.bytes_read(),
{
    assert(output_bytes(core.events()) + core.pending() =~= output_bytes(core.events()));
}

/// The loop reports the child's exit at most once, and only as its last
/// word: a loop that has reported it has stopped and holds nothing back.
pub proof fn lemma_exit_reported_once(core: EventLoopCore)
    requires
        core.wf(),
    ensures
        exit_count(core.events()) <= 1,
        exit_count(core.events()) == 1 ==> core.stopped() && core.pending().len() == 0,
{
}

} // verus!
