//! The state a terminal view shows: loading, ready, or failed with a
//! message, from which the user may restart the session.

use vstd::prelude::*;
use vstd::string::*;

verus! {

/// What the view of a terminal session shows.
#[derive(Debug, Clone, PartialEq)]
pub enum TerminalState {
    /// A session is being started.
    Loading,
    /// The session runs.
    Ready,
    /// The session failed or ended; the text says why.
    Error(String),
}

impl TerminalState {
    /// The state once an event drain answered `status`: a drain that saw the
    /// shell exit turns the state into an error; otherwise it stays.
    pub fn after_events(self, status: Option<bool>) -> (r: Self)
        ensures
            status is None ==> r is Error && r->Error_0@ == "Process exited"@,
            status is Some ==> r == self,
    {
        match status {
            None => TerminalState::Error(String::from_str("Process exited")),
            Some(_) => self,
        }
    }

    /// The state after a liveness check: a ready view whose session has
    /// died turns into an error; any other state stays.
    pub fn after_health_check(self, alive: bool) -> (r: Self)
        ensures
            !alive && self is Ready ==> r is Error && r->Error_0@ == "Terminal session ended"@,
            alive || !(self is Ready) ==> r == self,
    {
        if !alive && matches!(self, TerminalState::Ready) {
            TerminalState::Error(String::from_str("Terminal session ended"))
        } else {
            self
        }
    }

    /// The state while a restart runs.
    pub fn restarting() -> (r: Self)
        ensures
            r is Loading,
    {
        TerminalState::Loading
    }

    /// The state once a restart finished: ready, or an error carrying the
    /// reason the new session could not start.
    pub fn after_restart(outcome: Result<(), String>) -> (r: Self)
        ensures
            outcome is Ok ==> r is Ready,
            outcome is Err ==> r is Error && r->Error_0@ == "Failed to restart terminal: "@
                + outcome->Err_0@,
    {
        match outcome {
            Ok(()) => TerminalState::Ready,
            Err(reason) => {
                let mut text = String::from_str("Failed to restart terminal: ");
                text.append(reason.as_str());
                TerminalState::Error(text)
            },
        }
    }

    /// Whether the view may offer a restart: only after a failure.
    pub fn can_restart(&self) -> (r: bool)
        ensures
            r == self is Error,
    {
        matches!(self, TerminalState::Error(_))
    }
}

} // verus!
