//! The bookkeeping of a terminal session: the command handle, the event
//! queue, the remembered grid size, the activity and liveness flags, and the
//! draining of events into bytes for the terminal-emulation engine.

use vstd::prelude::*;
use vstd::slice::slice_to_vec;
use vstd::string::*;
use crossbeam_channel::Receiver;
use crate::events::{TerminalCommand, TerminalEvent, output_bytes, exit_count, lemma_output_bytes_concat, lemma_exit_count_concat, lemma_no_exit_anywhere};
use crate::event_loop::{EventLoopCore, lemma_stopped_loop_emitted_every_byte};
use crate::handle::{ChannelClosed, TerminalHandle};

verus! {

#[verifier::external_type_specification]
#[verifier::external_body]
#[verifier::reject_recursive_types(T)]
pub struct ExReceiver<T>(crossbeam_channel::Receiver<T>);

/// What a non-blocking receive on the event queue gave.
pub enum EventPoll {
    Event(TerminalEvent),
    Empty,
    Disconnected,
}

/// Relies on crossbeam_channel::Receiver::try_recv: it takes the next queued
/// message without blocking, or says that the queue is empty or that every
/// sender is gone. What comes back depends on the other thread: nothing is
/// claimed of it.
#[verifier::external_body]
fn try_recv_event(rx: &Receiver<TerminalEvent>) -> (r: EventPoll) {
    match rx.try_recv() {
        Ok(e) => EventPoll::Event(e),
        Err(crossbeam_channel::TryRecvError::Empty) => EventPoll::Empty,
        Err(crossbeam_channel::TryRecvError::Disconnected) => EventPoll::Disconnected,
    }
}

/// Whether `c` has the Unicode `White_Space` property.
pub open spec fn is_white_space(c: char) -> bool {
    let u = c as u32;
    (0x9 <= u && u <= 0xD) || u == 0x20 || u == 0x85 || u == 0xA0 || u == 0x1680 || (0x2000 <= u
        && u <= 0x200A) || u == 0x2028 || u == 0x2029 || u == 0x202F || u == 0x205F || u == 0x3000
}

/// `s` without its trailing white space.
pub open spec fn trim_trailing(s: Seq<char>) -> Seq<char>
    decreases s.len(),
{
    if s.len() > 0 && is_white_space(s.last()) {
        trim_trailing(s.drop_last())
    } else {
        s
    }
}

/// The scrollback of a screen: the lines of `history`, oldest first,
/// trimmed of trailing white space with blank ones left out, then the lines
/// of `visible`, trimmed.
pub open spec fn scrollback_of(history: Seq<Seq<char>>, visible: Seq<Seq<char>>) -> Seq<Seq<char>> {
    history.map_values(|l: Seq<char>| trim_trailing(l)).filter(|l: Seq<char>| l.len() > 0)
        + visible.map_values(|l: Seq<char>| trim_trailing(l))
}

/// Relies on str::trim_end: it removes trailing characters with the Unicode
/// White_Space property.
#[verifier::external_body]
fn trim_end_owned(s: &str) -> (r: String)
    ensures
        r@ == trim_trailing(s@),
{
    s.trim_end().to_string()
}

/// The scrollback kept for a session whose screen shows `visible` below the
/// history lines `history` (oldest first): history lines trimmed of trailing
/// white space, blank ones left out, then the screen lines, trimmed.
pub fn scrollback_lines(history: &Vec<String>, visible: &Vec<String>) -> (r: Vec<String>)
    ensures
        r@.map_values(|l: String| l@) == scrollback_of(
            history@.map_values(|l: String| l@),
            visible@.map_values(|l: String| l@),
        ),
{
    let ghost hv = history@.map_values(|l: String| l@);
    let ghost vv = visible@.map_values(|l: String| l@);
    let ghost th = hv.map_values(|l: Seq<char>| trim_trailing(l));
    let mut out: Vec<String> = Vec::new();
    let mut i: usize = 0;
    proof {
        reveal_with_fuel(Seq::filter, 1);
        assert(th.subrange(0, 0) =~= Seq::<Seq<char>>::empty());
        assert(out@.map_values(|l: String| l@) =~= Seq::<Seq<char>>::empty());
    }
    while i < history.len()
        invariant
            0 <= i <= history@.len(),
            hv == history@.map_values(|l: String| l@),
            th == hv.map_values(|l: Seq<char>| trim_trailing(l)),
            out@.map_values(|l: String| l@) == th.subrange(0, i as int).filter(
                |l: Seq<char>| l.len() > 0,
            ),
        decreases history@.len() - i,
    {
        let ghost out0 = out@;
        let t = trim_end_owned(history[i].as_str());
        proof {
            assert(th.subrange(0, i as int + 1).drop_last() =~= th.subrange(0, i as int));
            assert(th.subrange(0, i as int + 1).last() == t@);
            reveal_with_fuel(Seq::filter, 1);
        }
        if t.as_str().unicode_len() > 0 {
            out.push(t);
            proof {
                assert(out@.map_values(|l: String| l@) =~= out0.map_values(|l: String| l@).push(
                    out@.last()@,
                ));
            }
        }
        i = i + 1;
    }
    proof {
        assert(th.subrange(0, history@.len() as int) =~= th);
    }
    let ghost filtered = out@.map_values(|l: String| l@);
    let mut k: usize = 0;
    while k < visible.len()
        invariant
            0 <= k <= visible@.len(),
            vv == visible@.map_values(|l: String| l@),
            out@.map_values(|l: String| l@) == filtered + vv.subrange(0, k as int).map_values(
                |l: Seq<char>| trim_trailing(l),
            ),
        decreases visible@.len() - k,
    {
        let ghost out0 = out@;
        let t = trim_end_owned(visible[k].as_str());
        out.push(t);
        proof {
            assert(vv.subrange(0, k as int + 1) =~= vv.subrange(0, k as int).push(vv[k as int]));
            assert(out@.map_values(|l: String| l@) =~= out0.map_values(|l: String| l@).push(
                out@.last()@,
            ));
            assert(filtered + vv.subrange(0, k as int + 1).map_values(|l: Seq<char>| trim_trailing(l))
                =~= (filtered + vv.subrange(0, k as int).map_values(|l: Seq<char>| trim_trailing(l))).push(
                trim_trailing(vv[k as int]),
            ));
        }
        k = k + 1;
    }
    proof {
        assert(vv.subrange(0, visible@.len() as int) =~= vv);
    }
    out
}

/// The index of the first `ProcessExited` event of `events`, or its length
/// when there is none.
pub open spec fn exit_index(events: Seq<TerminalEvent>) -> nat
    decreases events.len(),
{
    if events.len() == 0 {
        0
    } else if events[0] is ProcessExited {
        0
    } else {
        1 + exit_index(events.drop_first())
    }
}

/// The events of `events` that come before the first exit.
pub open spec fn before_exit(events: Seq<TerminalEvent>) -> Seq<TerminalEvent> {
    events.subrange(0, exit_index(events) as int)
}

/// Whether `events` reports the exit of the shell process.
pub open spec fn reports_exit(events: Seq<TerminalEvent>) -> bool {
    exit_index(events) < events.len()
}

/// Whether `events` holds an `Output` event.
pub open spec fn has_output(events: Seq<TerminalEvent>) -> bool {
    exists|j: int| 0 <= j < events.len() && (#[trigger] events[j]) is Output
}

/// The grid size after the `Resized` events of `events`, starting at `size`.
pub open spec fn size_after(events: Seq<TerminalEvent>, size: (u16, u16)) -> (u16, u16)
    decreases events.len(),
{
    if events.len() == 0 {
        size
    } else {
        match events.last() {
            TerminalEvent::Resized { rows, cols } => (rows, cols),
            _ => size_after(events.drop_last(), size),
        }
    }
}

/// The text of the command that brings a shell back to `dir`.
pub open spec fn cd_command(dir: Seq<char>) -> Seq<char> {
    seq!['c', 'd', ' ', '\''] + dir + seq!['\'', '\n']
}

/// Applying `events` to a session of size `size` and liveness `alive` gives
/// size `size2`, liveness `alive2`, the answer `status` and the bytes `fed`
/// for the emulation engine.
pub open spec fn applies_to(
    events: Seq<TerminalEvent>,
    size: (u16, u16),
    alive: bool,
    size2: (u16, u16),
    alive2: bool,
    status: Option<bool>,
    fed: Seq<u8>,
) -> bool {
    &&& fed == output_bytes(before_exit(events))
    &&& size2 == size_after(before_exit(events), size)
    &&& reports_exit(events) ==> status is None && !alive2
    &&& !reports_exit(events) ==> status == Some(has_output(events)) && alive2 == alive
}

proof fn lemma_exit_index_bounds(events: Seq<TerminalEvent>, i: int)
    requires
        0 <= i <= events.len(),
        forall|j: int| 0 <= j < i ==> !((#[trigger] events[j]) is ProcessExited),
    ensures
        exit_index(events) >= i,
        exit_index(events) <= events.len(),
        i < events.len() && events[i] is ProcessExited ==> exit_index(events) == i,
    decreases events.len(),
{
    if events.len() > 0 {
        if i > 0 {
            assert forall|j: int| 0 <= j < i - 1 implies !((#[trigger] events.drop_first()[j]) is ProcessExited) by {
                assert(events.drop_first()[j] == events[j + 1]);
            }
            lemma_exit_index_bounds(events.drop_first(), i - 1);
        } else {
            lemma_exit_index_bounds(events.drop_first(), 0);
        }
    }
}

/// The state of a session apart from its emulation engine.
pub struct SessionCore {
    handle: TerminalHandle,
    event_rx: Receiver<TerminalEvent>,
    grid_size: (u16, u16),
    worktree_path: String,
    has_activity: bool,
    is_process_alive: bool,
}

impl SessionCore {
    /// The remembered grid size, (rows, cols).
    pub closed spec fn size(&self) -> (u16, u16) {
        self.grid_size
    }

    /// Whether input was written since the activity flag was last cleared.
    pub closed spec fn activity(&self) -> bool {
        self.has_activity
    }

    /// Whether the shell process is taken to be running.
    pub closed spec fn alive(&self) -> bool {
        self.is_process_alive
    }

    /// The worktree this session belongs to.
    pub closed spec fn worktree(&self) -> Seq<char> {
        self.worktree_path@
    }

    /// A session over a started loop, with a live process, no activity, and
    /// the grid size it was opened at.
    pub fn new(
        handle: TerminalHandle,
        event_rx: Receiver<TerminalEvent>,
        worktree_path: String,
        rows: u16,
        cols: u16,
    ) -> (r: Self)
        ensures
            r.size() == (rows, cols),
            r.alive(),
            !r.activity(),
            r.worktree() == worktree_path@,
    {
        SessionCore {
            handle,
            event_rx,
            grid_size: (rows, cols),
            worktree_path,
            has_activity: false,
            is_process_alive: true,
        }
    }

    /// The remembered grid size, (rows, cols).
    pub fn grid_size(&self) -> (r: (u16, u16))
        ensures
            r == self.size(),
    {
        self.grid_size
    }

    /// Whether the shell process is taken to be running.
    pub fn is_alive(&self) -> (r: bool)
        ensures
            r == self.alive(),
    {
        self.is_process_alive
    }

    /// Whether input was written since the flag was last cleared.
    pub fn has_activity(&self) -> (r: bool)
        ensures
            r == self.activity(),
    {
        self.has_activity
    }

    /// Clears the activity flag.
    pub fn clear_activity_flag(&mut self)
        ensures
            !final(self).activity(),
            final(self).size() == old(self).size(),
            final(self).alive() == old(self).alive(),
            final(self).worktree() == old(self).worktree(),
    {
        self.has_activity = false;
    }

    /// The worktree this session belongs to.
    pub fn worktree_path(&self) -> (r: &String)
        ensures
            r@ == self.worktree(),
    {
        &self.worktree_path
    }

    /// Queues `data` as input for the shell and marks the session active.
    pub fn write_input(&mut self, data: &[u8]) -> (r: Result<(), ChannelClosed>)
        ensures
            final(self).activity(),
            final(self).size() == old(self).size(),
            final(self).alive() == old(self).alive(),
            final(self).worktree() == old(self).worktree(),
            r is Err ==> r->Err_0.command is Input && r->Err_0.command->Input_0@ == data@,
    {
        self.has_activity = true;
        self.handle.send_input(slice_to_vec(data))
    }

    /// Queues a resize to `rows` by `cols`. The remembered size changes only
    /// when the command was queued.
    pub fn resize(&mut self, rows: u16, cols: u16) -> (r: Result<(), ChannelClosed>)
        ensures
            r is Ok ==> final(self).size() == (rows, cols),
            r is Err ==> final(self).size() == old(self).size() && r->Err_0.command == (
            TerminalCommand::Resize { rows, cols }),
            final(self).activity() == old(self).activity(),
            final(self).alive() == old(self).alive(),
            final(self).worktree() == old(self).worktree(),
    {
        let sent = self.handle.resize(rows, cols);
        if sent.is_ok() {
            self.grid_size = (rows, cols);
        }
        sent
    }

    /// Queues a shutdown of the background loop; the process is torn down
    /// there once the loop takes the command.
    pub fn kill(&self) -> (r: Result<(), ChannelClosed>)
        ensures
            r is Err ==> r->Err_0.command == TerminalCommand::Shutdown,
    {
        self.handle.shutdown()
    }

    /// The input that brings the shell back to `saved_dir`, a working
    /// directory saved by an earlier session: none when it is the worktree
    /// itself.
    pub fn restore_command(&self, saved_dir: &str) -> (r: Option<String>)
        ensures
            saved_dir@ == self.worktree() ==> r is None,
            saved_dir@ != self.worktree() ==> r is Some && r->Some_0@ == cd_command(saved_dir@),
    {
        let saved = String::from_str(saved_dir);
        if saved == self.worktree_path {
            return None;
        }
        let mut cmd = String::from_str("cd '");
        cmd.append(saved_dir);
        cmd.append("'\n");
        proof {
            reveal_strlit("cd '");
            reveal_strlit("'\n");
            assert(cmd@ =~= cd_command(saved_dir@));
        }
        Some(cmd)
    }

    /// Sends the shell back to `saved_dir` when it differs from the
    /// worktree. The scrollback of the earlier session is not replayed.
    pub fn restore_working_directory(&self, saved_dir: &str) -> (r: Result<(), ChannelClosed>)
        ensures
            saved_dir@ == self.worktree() ==> r is Ok,
            r is Err ==> saved_dir@ != self.worktree() && r->Err_0.command is Input,
    {
        match self.restore_command(saved_dir) {
            Some(cmd) => self.handle.send_input(cmd.as_str().as_bytes_vec()),
            None => Ok(()),
        }
    }

    /// Drains every event queued now, without blocking, and applies them as
    /// [`SessionCore::apply_events`] does. Draining stops after an exit
    /// event; a queue whose sender is gone counts as the exit of the
    /// process.
    pub fn process_events(&mut self) -> (r: (Option<bool>, Vec<u8>))
        ensures
            exists|events: Seq<TerminalEvent>|
                #![trigger before_exit(events)]
                applies_to(
                    events,
                    old(self).size(),
                    old(self).alive(),
                    final(self).size(),
                    final(self).alive(),
                    r.0,
                    r.1@,
                ),
            final(self).activity() == old(self).activity(),
            final(self).worktree() == old(self).worktree(),
    {
        let mut drained: Vec<TerminalEvent> = Vec::new();
        while drained.len() < usize::MAX
            decreases usize::MAX - drained.len(),
        {
            match try_recv_event(&self.event_rx) {
                EventPoll::Event(e) => {
                    let exited = matches!(e, TerminalEvent::ProcessExited(_));
                    drained.push(e);
                    if exited {
                        break ;
                    }
                },
                EventPoll::Empty => {
                    break ;
                },
                EventPoll::Disconnected => {
                    drained.push(TerminalEvent::ProcessExited(0));
                    break ;
                },
            }
        }
        let r = self.apply_events(&drained);
        proof {
            let _ = before_exit(drained@);
        }
        r
    }

    /// Applies drained events in order: the bytes of `Output` events are
    /// gathered for the emulation engine, `Resized` events update the
    /// remembered size, and a `ProcessExited` event marks the process dead
    /// and ends the processing. Returns `None` after an exit, else whether
    /// any output came, with the gathered bytes.
    pub fn apply_events(&mut self, events: &Vec<TerminalEvent>) -> (r: (Option<bool>, Vec<u8>))
        ensures
            r.1@ == output_bytes(before_exit(events@)),
            final(self).size() == size_after(before_exit(events@), old(self).size()),
            reports_exit(events@) ==> r.0 is None && !final(self).alive(),
            !reports_exit(events@) ==> r.0 == Some(has_output(events@)) && final(self).alive()
                == old(self).alive(),
            final(self).activity() == old(self).activity(),
            final(self).worktree() == old(self).worktree(),
    {
        let mut fed: Vec<u8> = Vec::new();
        let mut new_content = false;
        let mut i: usize = 0;
        proof {
            lemma_exit_index_bounds(events@, 0);
        }
        while i < events.len()
            invariant
                0 <= i <= events@.len(),
                forall|j: int| 0 <= j < i ==> !((#[trigger] events@[j]) is ProcessExited),
                fed@ == output_bytes(events@.subrange(0, i as int)),
                self.grid_size == size_after(events@.subrange(0, i as int), old(self).size()),
                new_content == has_output(events@.subrange(0, i as int)),
                self.is_process_alive == old(self).alive(),
                self.has_activity == old(self).activity(),
                self.worktree_path@ == old(self).worktree(),
            decreases events@.len() - i,
        {
            let ghost prefix = events@.subrange(0, i as int);
            let ghost next = events@.subrange(0, i as int + 1);
            proof {
                assert(next.drop_last() =~= prefix);
                assert(next =~= prefix + seq![events@[i as int]]);
                lemma_output_bytes_concat(prefix, seq![events@[i as int]]);
                let one = seq![events@[i as int]];
                assert(one.drop_first() =~= Seq::<TerminalEvent>::empty());
                assert(output_bytes(one.drop_first()) == Seq::<u8>::empty());
                assert(one[0] == events@[i as int]);
                lemma_exit_index_bounds(events@, i as int);
            }
            match &events[i] {
                TerminalEvent::Output(data) => {
                    let mut k: usize = 0;
                    let ghost fed0 = fed@;
                    while k < data.len()
                        invariant
                            0 <= k <= data@.len(),
                            fed@ == fed0 + data@.subrange(0, k as int),
                        decreases data@.len() - k,
                    {
                        fed.push(data[k]);
                        k = k + 1;
                    }
                    proof {
                        assert(data@.subrange(0, data@.len() as int) =~= data@);
                        assert(output_bytes(seq![events@[i as int]]) == data@ + Seq::<u8>::empty());
                        assert(data@ + Seq::<u8>::empty() =~= data@);
                        assert(next[i as int] is Output);
                        assert forall|j: int| 0 <= j < next.len() && (#[trigger] next[j]) is Output implies has_output(next) by {}
                    }
                    new_content = true;
                },
                TerminalEvent::ProcessExited(_) => {
                    proof {
                        assert(before_exit(events@) =~= prefix);
                    }
                    self.is_process_alive = false;
                    return (None, fed);
                },
                TerminalEvent::Resized { rows, cols } => {
                    proof {
                        assert(output_bytes(seq![events@[i as int]]) == Seq::<u8>::empty() + Seq::<u8>::empty());
                        assert(Seq::<u8>::empty() + Seq::<u8>::empty() =~= Seq::<u8>::empty());
                        assert(has_output(next) == has_output(prefix)) by {
                            if has_output(next) {
                                let j = choose|j: int| 0 <= j < next.len() && (#[trigger] next[j]) is Output;
                                assert(prefix[j] == next[j]);
                            }
                            if has_output(prefix) {
                                let j = choose|j: int| 0 <= j < prefix.len() && (#[trigger] prefix[j]) is Output;
                                assert(prefix[j] == next[j]);
                            }
                        }
                    }
                    self.grid_size = (*rows, *cols);
                },
            }
            proof {
                if new_content && !has_output(prefix) {
                    assert(next[i as int] is Output);
                }
            }
            i = i + 1;
        }
        proof {
            assert(events@.subrange(0, events@.len() as int) =~= events@);
            lemma_exit_index_bounds(events@, events@.len() as int);
            assert(before_exit(events@) =~= events@);
        }
        (Some(new_content), fed)
    }
}

/// Every byte the background loop read reaches the emulation engine of a
/// session that applies all the events the loop emitted: none is dropped,
/// reordered or repeated on the way.
pub proof fn lemma_session_feeds_every_byte_read(core: EventLoopCore)
    requires
        core.wf(),
        core.stopped(),
    ensures
        output_bytes(before_exit(core.events())) == core.bytes_read(),
{
    let evs = core.events();
    lemma_stopped_loop_emitted_every_byte(core);
    if exit_count(evs) == 0 {
        lemma_no_exit_anywhere(evs);
        lemma_exit_index_bounds(evs, evs.len() as int);
        assert(before_exit(evs) =~= evs);
    } else {
        let init = evs.drop_last();
        let tail = seq![evs.last()];
        assert(evs =~= init + tail);
        lemma_exit_count_concat(init, tail);
        assert(tail.drop_first() =~= Seq::<TerminalEvent>::empty());
        assert(exit_count(tail) == 1 + exit_count(tail.drop_first()));
        lemma_no_exit_anywhere(init);
        assert forall|j: int| 0 <= j < init.len() implies !((#[trigger] evs[j]) is ProcessExited) by {
            assert(evs[j] == init[j]);
        }
        lemma_exit_index_bounds(evs, init.len() as int);
        assert(before_exit(evs) =~= init);
        lemma_output_bytes_concat(init, tail);
        assert(output_bytes(tail) == output_bytes(tail.drop_first()));
        assert(output_bytes(tail) =~= Seq::<u8>::empty());
        assert(output_bytes(init) + Seq::<u8>::empty() =~= output_bytes(init));
    }
}

/// A `Resized` event reaching a session sets its remembered size to the
/// size it carries, whatever the size was before.
pub proof fn lemma_resized_event_sets_size(rows: u16, cols: u16, size: (u16, u16))
    ensures
        ({
            let events = seq![TerminalEvent::Resized { rows, cols }];
            &&& !reports_exit(events)
            &&& size_after(before_exit(events), size) == (rows, cols)
        }),
{
    let events = seq![TerminalEvent::Resized { rows, cols }];
    lemma_exit_index_bounds(events, 0);
    assert(events.drop_first() =~= Seq::<TerminalEvent>::empty());
    assert(exit_index(events) == 1 + exit_index(events.drop_first()));
    assert(before_exit(events) =~= events);
}

} // verus!
