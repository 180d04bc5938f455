use maestro::keys::key_to_input;
use maestro::status::TerminalState;
use crossbeam_channel::unbounded;
use maestro::batch::{OutputBatch, BATCH_WINDOW_US, MAX_BATCH_READS};
use maestro::event_loop::{CommandPoll, EventLoopCore, LoopAction, ACTIVE_POLL_TIMEOUT_MS, IDLE_POLL_TIMEOUT_MS};
use maestro::events::{TerminalCommand, TerminalEvent};
use maestro::handle::TerminalHandle;
use maestro::pty::{resolve_shell, teardown_step, TeardownStep, HANGUP_WAIT_POLLS};
use maestro::session::SessionCore;

fn output_of(events: &[TerminalEvent]) -> Vec<Vec<u8>> {
    events
        .iter()
        .filter_map(|e| match e {
            TerminalEvent::Output(d) => Some(d.clone()),
            _ => None,
        })
        .collect()
}

#[test]
fn batch_window_and_read_cap() {
    let mut b = OutputBatch::new();
    assert!(!b.is_open());
    assert!(!b.should_flush(1_000_000));
    b.record_read(b"", 10);
    assert!(!b.is_open());
    b.record_read(b"ab", 100);
    assert!(b.is_open());
    assert!(!b.should_flush(100 + BATCH_WINDOW_US - 1));
    assert!(b.should_flush(100 + BATCH_WINDOW_US));
    assert_eq!(b.flush_if_due(100 + BATCH_WINDOW_US), Some(b"ab".to_vec()));
    assert!(!b.is_open());
    assert_eq!(b.take_pending(), None);

    for _ in 0..MAX_BATCH_READS - 1 {
        b.record_read(b"x", 5);
    }
    assert!(!b.should_flush(6));
    b.record_read(b"y", 6);
    assert!(b.should_flush(6));
    assert_eq!(b.take_pending().unwrap().len(), MAX_BATCH_READS);
}

#[test]
fn quick_reads_coalesce_into_one_output_event() {
    let mut core = EventLoopCore::new();
    assert_eq!(core.poll_timeout_ms(), IDLE_POLL_TIMEOUT_MS);
    let mut events = Vec::new();
    for (i, chunk) in [b"he".as_slice(), b"ll", b"o"].iter().enumerate() {
        core.on_read(chunk, 1000 + i as u64 * 500);
        events.extend(core.on_tick(1000 + i as u64 * 500));
    }
    assert_eq!(core.poll_timeout_ms(), ACTIVE_POLL_TIMEOUT_MS);
    assert!(events.is_empty());
    events.extend(core.on_tick(1000 + BATCH_WINDOW_US));
    assert_eq!(output_of(&events), vec![b"hello".to_vec()]);
}

#[test]
fn slow_reads_give_separate_output_events() {
    let mut core = EventLoopCore::new();
    let mut events = Vec::new();
    core.on_read(b"first", 0);
    events.extend(core.on_tick(0));
    events.extend(core.on_tick(50_000));
    core.on_read(b"second", 100_000);
    events.extend(core.on_tick(100_000));
    events.extend(core.on_tick(150_000));
    assert_eq!(output_of(&events), vec![b"first".to_vec(), b"second".to_vec()]);
}

#[test]
fn commands_become_actions() {
    let mut core = EventLoopCore::new();
    let (a, ev) = core.on_command(CommandPoll::Received(TerminalCommand::Input(b"ls\n".to_vec())));
    assert!(matches!(a, LoopAction::Write(ref d) if d == b"ls\n"));
    assert!(ev.is_empty());
    let (a, _) = core.on_command(CommandPoll::Received(TerminalCommand::Resize { rows: 50, cols: 100 }));
    assert!(matches!(a, LoopAction::Resize { rows: 50, cols: 100 }));
    let ev = core.on_resize_done(50, 100, true);
    assert!(matches!(ev.as_slice(), [TerminalEvent::Resized { rows: 50, cols: 100 }]));
    assert!(core.on_resize_done(50, 100, false).is_empty());
    let (a, ev) = core.on_command(CommandPoll::Empty);
    assert!(matches!(a, LoopAction::Idle));
    assert!(ev.is_empty());
}

#[test]
fn shutdown_flushes_pending_output_and_stops() {
    let mut core = EventLoopCore::new();
    core.on_read(b"tail", 0);
    let (a, ev) = core.on_command(CommandPoll::Received(TerminalCommand::Shutdown));
    assert!(matches!(a, LoopAction::Stop));
    assert_eq!(output_of(&ev), vec![b"tail".to_vec()]);
    assert!(core.is_stopped());
    let (a, ev) = core.on_command(CommandPoll::Received(TerminalCommand::Input(vec![1])));
    assert!(matches!(a, LoopAction::Stop));
    assert!(ev.is_empty());
}

#[test]
fn disconnected_queue_stops_the_loop() {
    let mut core = EventLoopCore::new();
    let (a, ev) = core.on_command(CommandPoll::Disconnected);
    assert!(matches!(a, LoopAction::Stop));
    assert!(ev.is_empty());
    assert!(core.is_stopped());
}

#[test]
fn dead_child_gives_exactly_one_exit_event() {
    let mut core = EventLoopCore::new();
    assert!(core.on_liveness(true).is_empty());
    core.on_read(b"bye", 0);
    let ev = core.on_liveness(false);
    assert_eq!(ev.len(), 2);
    assert!(matches!(&ev[0], TerminalEvent::Output(d) if d == b"bye"));
    assert!(matches!(ev[1], TerminalEvent::ProcessExited(0)));
    assert!(core.on_liveness(false).is_empty());
    assert!(core.stop().is_empty());
    core.on_read(b"late", 1);
    assert!(core.on_tick(1_000_000).is_empty());
}

#[test]
fn session_applies_events_in_order() {
    let (tx, _rx) = unbounded();
    let (_etx, erx) = unbounded::<TerminalEvent>();
    let mut s = SessionCore::new(TerminalHandle::new(tx), erx, "/w".to_string(), 24, 80);
    let events = vec![
        TerminalEvent::Output(b"ab".to_vec()),
        TerminalEvent::Resized { rows: 50, cols: 100 },
        TerminalEvent::Output(b"c".to_vec()),
    ];
    let (status, fed) = s.apply_events(&events);
    assert_eq!(status, Some(true));
    assert_eq!(fed, b"abc".to_vec());
    assert_eq!(s.grid_size(), (50, 100));
    assert!(s.is_alive());

    let (status, fed) = s.apply_events(&vec![]);
    assert_eq!(status, Some(false));
    assert!(fed.is_empty());

    let events = vec![
        TerminalEvent::Output(b"x".to_vec()),
        TerminalEvent::ProcessExited(0),
        TerminalEvent::Output(b"y".to_vec()),
        TerminalEvent::Resized { rows: 1, cols: 1 },
    ];
    let (status, fed) = s.apply_events(&events);
    assert_eq!(status, None);
    assert_eq!(fed, b"x".to_vec());
    assert_eq!(s.grid_size(), (50, 100));
    assert!(!s.is_alive());
}

#[test]
fn session_drains_queue_and_tracks_resize() {
    let (tx, rx) = unbounded();
    let (etx, erx) = unbounded::<TerminalEvent>();
    let mut s = SessionCore::new(TerminalHandle::new(tx), erx, "/w".to_string(), 24, 80);
    assert!(!s.has_activity());
    s.write_input(b"echo hi\n").unwrap();
    assert!(s.has_activity());
    s.clear_activity_flag();
    assert!(!s.has_activity());
    assert!(matches!(rx.try_recv().unwrap(), TerminalCommand::Input(d) if d == b"echo hi\n"));

    s.resize(50, 100).unwrap();
    assert_eq!(s.grid_size(), (50, 100));
    assert!(matches!(rx.try_recv().unwrap(), TerminalCommand::Resize { rows: 50, cols: 100 }));

    etx.send(TerminalEvent::Resized { rows: 50, cols: 100 }).unwrap();
    etx.send(TerminalEvent::Output(b"hi".to_vec())).unwrap();
    let (status, fed) = s.process_events();
    assert_eq!(status, Some(true));
    assert_eq!(fed, b"hi".to_vec());
    assert_eq!(s.grid_size(), (50, 100));

    s.kill().unwrap();
    assert!(matches!(rx.try_recv().unwrap(), TerminalCommand::Shutdown));

    drop(etx);
    let (status, _) = s.process_events();
    assert_eq!(status, None);
    assert!(!s.is_alive());
}

#[test]
fn failed_resize_keeps_remembered_size() {
    let (tx, rx) = unbounded();
    let (_etx, erx) = unbounded::<TerminalEvent>();
    let mut s = SessionCore::new(TerminalHandle::new(tx), erx, "/w".to_string(), 24, 80);
    drop(rx);
    assert!(s.resize(50, 100).is_err());
    assert_eq!(s.grid_size(), (24, 80));
    assert!(s.write_input(b"x").is_err());
}

#[test]
fn restore_command_changes_directory_only_when_needed() {
    let (tx, rx) = unbounded();
    let (_etx, erx) = unbounded::<TerminalEvent>();
    let s = SessionCore::new(TerminalHandle::new(tx), erx, "/repo/wt".to_string(), 24, 80);
    assert_eq!(s.restore_command("/repo/wt"), None);
    assert_eq!(s.restore_command("/repo/wt/src"), Some("cd '/repo/wt/src'\n".to_string()));
    s.restore_working_directory("/repo/wt").unwrap();
    assert!(rx.try_recv().is_err());
    s.restore_working_directory("/tmp").unwrap();
    assert!(matches!(rx.try_recv().unwrap(), TerminalCommand::Input(d) if d == b"cd '/tmp'\n"));
    assert_eq!(s.worktree_path(), "/repo/wt");
}

#[test]
fn shell_resolution_order() {
    assert_eq!(resolve_shell(Some("/bin/zsh".to_string()), Some("/bin/bash".to_string())), "/bin/zsh");
    assert_eq!(resolve_shell(None, Some("/bin/bash".to_string())), "/bin/bash");
    assert_eq!(resolve_shell(None, None), "/bin/sh");
}

#[test]
fn teardown_waits_then_kills() {
    assert_eq!(teardown_step(0, true), TeardownStep::Wait);
    assert_eq!(teardown_step(HANGUP_WAIT_POLLS - 1, true), TeardownStep::Wait);
    assert_eq!(teardown_step(HANGUP_WAIT_POLLS, true), TeardownStep::ForceKill);
    assert_eq!(teardown_step(3, false), TeardownStep::Close);
}

#[test]
fn hundred_inputs_queue_quickly() {
    let (tx, _rx) = unbounded();
    let handle = TerminalHandle::new(tx);
    let start = std::time::Instant::now();
    for i in 0..100 {
        handle.send_input(format!("echo {}\n", i).into_bytes()).unwrap();
    }
    assert!(start.elapsed().as_millis() < 50);
}

#[test]
fn scrollback_trims_and_skips_blank_history() {
    let history = vec!["old line   ".to_string(), "    ".to_string(), "kept\t".to_string()];
    let visible = vec!["$ ls  ".to_string(), "   ".to_string(), "a\u{3000}".to_string()];
    let lines = maestro::session::scrollback_lines(&history, &visible);
    assert_eq!(lines, vec!["old line", "kept", "$ ls", "", "a"]);
}

#[test]
fn keys_map_to_terminal_input() {
    assert_eq!(key_to_input("enter", false), Some(b"\r".to_vec()));
    assert_eq!(key_to_input("backspace", true), Some(b"\x7f".to_vec()));
    assert_eq!(key_to_input("up", false), Some(b"\x1b[A".to_vec()));
    assert_eq!(key_to_input("pagedown", false), Some(b"\x1b[6~".to_vec()));
    assert_eq!(key_to_input("c", true), Some(vec![3]));
    assert_eq!(key_to_input("C", true), Some(vec![3]));
    assert_eq!(key_to_input("c", false), Some(b"c".to_vec()));
    assert_eq!(key_to_input("1", true), Some(b"1".to_vec()));
    assert_eq!(key_to_input("f1", false), None);
    assert_eq!(key_to_input("é", false), None);
}

#[test]
fn view_state_follows_session_lifecycle() {
    let s = TerminalState::restarting();
    assert_eq!(s, TerminalState::Loading);
    let s = TerminalState::after_restart(Ok(()));
    assert_eq!(s, TerminalState::Ready);
    let s = s.after_events(Some(true));
    assert_eq!(s, TerminalState::Ready);
    assert!(!s.can_restart());
    let s = s.clone().after_health_check(true);
    assert_eq!(s, TerminalState::Ready);
    let ended = s.clone().after_health_check(false);
    assert_eq!(ended, TerminalState::Error("Terminal session ended".to_string()));
    assert!(ended.can_restart());
    assert_eq!(ended.clone().after_health_check(false), ended);
    assert_eq!(s.after_events(None), TerminalState::Error("Process exited".to_string()));
    assert_eq!(
        TerminalState::after_restart(Err("no shell".to_string())),
        TerminalState::Error("Failed to restart terminal: no shell".to_string())
    );
}
