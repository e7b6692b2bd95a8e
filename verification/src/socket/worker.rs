//! The course of a worker that runs a socket on its own thread: it drains the
//! commands of the controller, and forwards packets to the orchestrator.

use vstd::prelude::*;
use crate::peripheral::id::PeripheralId;
use crate::text;
use crate::text::push_nat;
use super::packet::SocketPacketMeta;

verus! {

/// Commands sent to a socket worker by the orchestrator.
#[derive(Debug)]
pub enum SocketWorkerCommand {
    /// Send a payload to a peripheral.
    Send { id: PeripheralId, payload: Vec<u8> },
    /// Broadcast a payload on the socket.
    Broadcast { payload: Vec<u8> },
    /// Update the socket's address map for a peripheral.
    UpdateMap { id: PeripheralId, token: u64 },
    /// Shut down the worker.
    Close,
}

/// Events emitted by a socket worker to the orchestrator.
#[derive(Debug)]
pub enum SocketWorkerEvent {
    /// Incoming packet data and metadata.
    Packet { socket_id: usize, meta: SocketPacketMeta, payload: Vec<u8> },
    /// Error from the worker's socket I/O path.
    Error { socket_id: usize, error: String },
    /// Worker has closed its socket and is exiting.
    Closed { socket_id: usize },
}

/// What the command queue of a worker gives.
#[derive(Debug)]
pub enum QueueOutcome {
    Command(SocketWorkerCommand),
    Empty,
    Disconnected,
}

/// What a worker does next.
#[derive(Debug)]
pub enum WorkerStep {
    /// Look for a command.
    Next,
    /// Perform the command on the socket.
    Perform(SocketWorkerCommand),
    /// Report this event.
    Report(SocketWorkerEvent),
    /// Wait for a packet, or only look for one.
    Receive { wait: bool },
    /// Close the socket, report that, and end.
    Close,
}

/// A worker of one socket.
#[derive(Debug, Clone, Copy, PartialEq, Eq, Structural)]
pub struct SocketWorker {
    pub socket_id: usize,
    /// Whether a command was handled since packets were last looked for.
    pub handled_any: bool,
}

impl SocketWorker {
    /// A worker that starts with the command queue.
    pub fn new(socket_id: usize) -> (r: Self)
        ensures
            r == (SocketWorker { socket_id, handled_any: false }),
    {
        SocketWorker { socket_id, handled_any: false }
    }

    /// Takes what the command queue gave. All queued commands go before the next
    /// packet. Packets are waited for only where no command came.
    pub fn on_queue(&mut self, outcome: QueueOutcome) -> (step: WorkerStep)
        ensures
            final(self).socket_id == old(self).socket_id,
            match outcome {
                QueueOutcome::Command(SocketWorkerCommand::Close) => step is Close && final(
                    self).handled_any,
                QueueOutcome::Command(command) => step == WorkerStep::Perform(command) && final(
                    self).handled_any,
                QueueOutcome::Empty => step == (WorkerStep::Receive {
                    wait: !old(self).handled_any,
                }) && !final(self).handled_any,
                QueueOutcome::Disconnected => step is Close && final(self).handled_any == old(
                    self).handled_any,
            },
    {
        match outcome {
            QueueOutcome::Command(command) => {
                self.handled_any = true;
                match command {
                    SocketWorkerCommand::Close => WorkerStep::Close,
                    _ => WorkerStep::Perform(command),
                }
            },
            QueueOutcome::Empty => {
                let wait = !self.handled_any;
                self.handled_any = false;
                WorkerStep::Receive { wait }
            },
            QueueOutcome::Disconnected => WorkerStep::Close,
        }
    }

    /// Takes what came of opening the socket. Where it failed, these are the last
    /// events of the worker: the error and the close. Otherwise the worker goes on
    /// with the command queue.
    pub fn on_opened(&self, result: Result<(), String>) -> (last: Option<[SocketWorkerEvent; 2]>)
        ensures
            match result {
                Ok(()) => last is None,
                Err(error) => last matches Some(events) && events@ == seq![
                    SocketWorkerEvent::Error { socket_id: self.socket_id, error },
                    SocketWorkerEvent::Closed { socket_id: self.socket_id },
                ],
            },
    {
        match result {
            Ok(()) => None,
            Err(error) => {
                let events = [
                    SocketWorkerEvent::Error { socket_id: self.socket_id, error },
                    self.closed(),
                ];
                assert(events@ =~= seq![
                    SocketWorkerEvent::Error { socket_id: self.socket_id, error },
                    SocketWorkerEvent::Closed { socket_id: self.socket_id },
                ]);
                Some(events)
            },
        }
    }

    /// Takes what came of a command. An error is reported.
    pub fn on_performed(&self, result: Result<(), String>) -> (step: WorkerStep)
        ensures
            match result {
                Ok(()) => step is Next,
                Err(error) => step == WorkerStep::Report(
                    SocketWorkerEvent::Error { socket_id: self.socket_id, error },
                ),
            },
    {
        match result {
            Ok(()) => WorkerStep::Next,
            Err(error) => WorkerStep::Report(
                SocketWorkerEvent::Error { socket_id: self.socket_id, error },
            ),
        }
    }

    /// Takes the packet that was received, if there was one: `buffer` holds it at
    /// its start. It is reported without what stands behind it.
    pub fn on_received(&self, received: Option<(SocketPacketMeta, Vec<u8>)>) -> (step: WorkerStep)
        ensures
            match received {
                None => step is Next,
                Some((meta, buffer)) => {
                    &&& step matches WorkerStep::Report(
                        SocketWorkerEvent::Packet { socket_id, meta: told, payload },
                    )
                    &&& socket_id == self.socket_id
                    &&& told == meta
                    &&& payload@ == if meta.size <= buffer@.len() {
                        buffer@.take(meta.size as int)
                    } else {
                        buffer@
                    }
                },
            },
    {
        match received {
            None => WorkerStep::Next,
            Some((meta, buffer)) => {
                let mut payload = buffer;
                if meta.size <= payload.len() {
                    payload.truncate(meta.size);
                }
                WorkerStep::Report(
                    SocketWorkerEvent::Packet { socket_id: self.socket_id, meta, payload },
                )
            },
        }
    }

    /// Takes whether an event reached the orchestrator. Where it did not, the
    /// worker is shutting down.
    pub fn on_reported(&self, ok: bool) -> (step: WorkerStep)
        ensures
            ok ==> step is Next,
            !ok ==> step is Close,
    {
        if ok {
            WorkerStep::Next
        } else {
            WorkerStep::Close
        }
    }

    /// The last event of the worker.
    pub fn closed(&self) -> (event: SocketWorkerEvent)
        ensures
            event == (SocketWorkerEvent::Closed { socket_id: self.socket_id }),
    {
        SocketWorkerEvent::Closed { socket_id: self.socket_id }
    }
}

/// The name of the thread of a worker.
pub fn thread_name(socket_id: usize) -> (s: String)
    ensures
        s@ == "socket-worker-"@ + text::nat_text(socket_id as nat),
{
    let mut s = "socket-worker-".to_owned();
    push_nat(&mut s, socket_id as u128);
    s
}

} // verus!
