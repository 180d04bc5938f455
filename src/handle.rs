//! The cloneable, non-blocking front through which any thread sends
//! commands to the background PTY loop.

use vstd::prelude::*;
use crossbeam_channel::Sender;
use crate::events::TerminalCommand;

verus! {

#[verifier::external_type_specification]
#[verifier::external_body]
#[verifier::reject_recursive_types(T)]
pub struct ExSender<T>(crossbeam_channel::Sender<T>);

/// Relies on the `Clone` impl of crossbeam_channel::Sender: it makes
/// another sender for the same channel. Nothing is claimed of the result.
pub assume_specification<T>[ <crossbeam_channel::Sender<T> as std::clone::Clone>::clone ](
    s: &crossbeam_channel::Sender<T>,
) -> crossbeam_channel::Sender<T>;

/// A command could not be queued because the background loop is gone; the
/// command is handed back.
#[derive(Debug, Clone)]
pub struct ChannelClosed {
    pub command: TerminalCommand,
}

/// Relies on crossbeam_channel::Sender::send: it queues the message, or,
/// when every receiver is gone, returns an error holding the message it was
/// given.
#[verifier::external_body]
fn send_command(tx: &Sender<TerminalCommand>, cmd: TerminalCommand)
    -> (r: Result<(), TerminalCommand>)
    ensures
        r is Err ==> r->Err_0 == cmd,
{
    match tx.send(cmd) {
        Ok(()) => Ok(()),
        Err(e) => Err(e.0),
    }
}

/// Sends commands to the background loop. Each call queues exactly one
/// command and returns at once; the queue is unbounded.
#[derive(Clone)]
pub struct TerminalHandle {
    command_tx: Sender<TerminalCommand>,
}

impl TerminalHandle {
    /// The sending side of the command queue.
    pub closed spec fn sender(&self) -> Sender<TerminalCommand> {
        self.command_tx
    }

    /// A handle over the sending side of a command queue.
    pub fn new(command_tx: Sender<TerminalCommand>) -> (r: Self)
        ensures
            r.sender() == command_tx,
    {
        TerminalHandle { command_tx }
    }

    /// Queues `command`; fails only when the background loop is gone, and
    /// then hands `command` back.
    pub fn send(&self, command: TerminalCommand) -> (r: Result<(), ChannelClosed>)
        ensures
            r is Err ==> r->Err_0.command == command,
    {
        match send_command(&self.command_tx, command) {
            Ok(()) => Ok(()),
            Err(c) => Err(ChannelClosed { command: c }),
        }
    }

    /// Queues the input bytes `data` for the PTY.
    pub fn send_input(&self, data: Vec<u8>) -> (r: Result<(), ChannelClosed>)
        ensures
            r is Err ==> r->Err_0.command == TerminalCommand::Input(data),
    {
        self.send(TerminalCommand::Input(data))
    }

    /// Queues a resize of the PTY window to `rows` by `cols`.
    pub fn resize(&self, rows: u16, cols: u16) -> (r: Result<(), ChannelClosed>)
        ensures
            r is Err ==> r->Err_0.command == (TerminalCommand::Resize { rows, cols }),
    {
        self.send(TerminalCommand::Resize { rows, cols })
    }

    /// Queues a shutdown of the background loop.
    pub fn shutdown(&self) -> (r: Result<(), ChannelClosed>)
        ensures
            r is Err ==> r->Err_0.command == TerminalCommand::Shutdown,
    {
        self.send(TerminalCommand::Shutdown)
    }
}

} // verus!
