//! Command and event types exchanged between the consumer side and the
//! background PTY loop.

use vstd::prelude::*;

verus! {

/// Events sent from the background loop to the consumer.
#[derive(Debug, Clone)]
pub enum TerminalEvent {
    /// Raw bytes read from the PTY, one batch.
    Output(Vec<u8>),
    /// The shell process has exited; the code is a placeholder.
    ProcessExited(i32),
    /// The PTY window was resized to these dimensions.
    Resized { rows: u16, cols: u16 },
}

/// Commands sent from the consumer to the background loop.
#[derive(Debug, Clone)]
pub enum TerminalCommand {
    /// Bytes to write to the PTY.
    Input(Vec<u8>),
    /// Resize the PTY window.
    Resize { rows: u16, cols: u16 },
    /// Flush pending output and stop the loop.
    Shutdown,
}

/// The bytes carried by the `Output` events of `events`, in order.
pub open spec fn output_bytes(events: Seq<TerminalEvent>) -> Seq<u8>
    decreases events.len(),
{
    if events.len() == 0 {
        Seq::empty()
    } else {
        let head = match events[0] {
            TerminalEvent::Output(data) => data@,
            _ => Seq::empty(),
        };
        head + output_bytes(events.drop_first())
    }
}

/// How many `ProcessExited` events `events` holds.
pub open spec fn exit_count(events: Seq<TerminalEvent>) -> nat
    decreases events.len(),
{
    if events.len() == 0 {
        0
    } else {
        (if events[0] is ProcessExited { 1nat } else { 0nat }) + exit_count(events.drop_first())
    }
}

/// The bytes of the `Output` events of two runs of events are those of the
/// first run followed by those of the second.
pub proof fn lemma_output_bytes_concat(a: Seq<TerminalEvent>, b: Seq<TerminalEvent>)
    ensures
        output_bytes(a + b) == output_bytes(a) + output_bytes(b),
    decreases a.len(),
{
    if a.len() == 0 {
        assert(a + b =~= b);
    } else {
        assert((a + b).drop_first() =~= a.drop_first() + b);
        lemma_output_bytes_concat(a.drop_first(), b);
    }
}

/// The exit events of two runs of events add up.
pub proof fn lemma_exit_count_concat(a: Seq<TerminalEvent>, b: Seq<TerminalEvent>)
    ensures
        exit_count(a + b) == exit_count(a) + exit_count(b),
    decreases a.len(),
{
    if a.len() == 0 {
        assert(a + b =~= b);
    } else {
        assert((a + b).drop_first() =~= a.drop_first() + b);
        lemma_exit_count_concat(a.drop_first(), b);
    }
}

/// A run of events without exit events holds none at any position.
pub proof fn lemma_no_exit_anywhere(events: Seq<TerminalEvent>)
    requires
        exit_count(events) == 0,
    ensures
        forall|j: int| 0 <= j < events.len() ==> !((#[trigger] events[j]) is ProcessExited),
    decreases events.len(),
{
    if events.len() > 0 {
        lemma_no_exit_anywhere(events.drop_first());
        assert forall|j: int| 0 <= j < events.len() implies !((#[trigger] events[j]) is ProcessExited) by {
            if j > 0 {
                assert(events[j] == events.drop_first()[j - 1]);
            }
        }
    }
}

} // verus!
