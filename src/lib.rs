//! The terminal backend of a git worktree browser.
//!
//! - `events`: the commands sent to the background PTY loop and the events
//!   it sends back.
//! - `batch` and `event_loop`: output batching and the decisions of the
//!   background loop, as a state machine driven by the thread that owns the
//!   PTY.
//! - `handle`: the cloneable, non-blocking command sender.
//! - `session`: a session's bookkeeping, event draining and scrollback.
//! - `pty`: shell choice and teardown order for the PTY child.
//! - `render`, `decorative`: colours, cell styles and cell batching.
//! - `keys`, `status`: key input and the state a terminal view shows.
//! - `worktree`, `repository`, `settings`: worktree listing and branch
//!   names, repository names, recent workspaces.

pub mod decorative;
pub mod events;
pub mod batch;
pub mod event_loop;
pub mod handle;
pub mod session;
pub mod pty;
pub mod render;
pub mod worktree;
pub mod repository;
pub mod settings;
pub mod keys;
pub mod status;
