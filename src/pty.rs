//! Decisions around the PTY child process: which shell to start, the size
//! it starts at, and the order of its teardown.

use vstd::prelude::*;
use vstd::string::*;

verus! {

/// The shell started when neither the caller nor the environment names one.
pub const FALLBACK_SHELL: &'static str = "/bin/sh";

/// The window size a PTY is opened with, in rows.
pub const INITIAL_ROWS: u16 = 24;

/// The window size a PTY is opened with, in columns.
pub const INITIAL_COLS: u16 = 80;

/// How many times teardown checks, with a short sleep between checks, for
/// the child to leave after the hangup signal before killing it.
pub const HANGUP_WAIT_POLLS: u32 = 10;

/// The shell to start: the one asked for, else the one the environment
/// names, else the fallback.
pub fn resolve_shell(requested: Option<String>, from_env: Option<String>) -> (r: String)
    ensures
        requested is Some ==> r@ == requested->Some_0@,
        requested is None && from_env is Some ==> r@ == from_env->Some_0@,
        requested is None && from_env is None ==> r@ == FALLBACK_SHELL@,
{
    match requested {
        Some(s) => s,
        None => match from_env {
            Some(s) => s,
            None => String::from_str(FALLBACK_SHELL),
        },
    }
}

/// The next step of tearing down a child that was sent the hangup signal.
#[derive(Debug, Clone, Copy, PartialEq, Eq)]
pub enum TeardownStep {
    /// Sleep briefly, then check on the child again.
    Wait,
    /// The child outlived the grace checks: kill it and reap it.
    ForceKill,
    /// The child is gone: close the master descriptor.
    Close,
}

/// Decides the teardown step after `checks_done` checks, the last of which
/// found the child `still_running` or not. A child that is gone is never
/// killed; a running one is waited on for the grace checks, then killed.
pub fn teardown_step(checks_done: u32, still_running: bool) -> (r: TeardownStep)
    ensures
        !still_running ==> r == TeardownStep::Close,
        still_running && checks_done < HANGUP_WAIT_POLLS ==> r == TeardownStep::Wait,
        still_running && checks_done >= HANGUP_WAIT_POLLS ==> r == TeardownStep::ForceKill,
{
    if !still_running {
        TeardownStep::Close
    } else if checks_done < HANGUP_WAIT_POLLS {
        TeardownStep::Wait
    } else {
        TeardownStep::ForceKill
    }
}

} // verus!
