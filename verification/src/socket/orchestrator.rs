//! Socket orchestration: round-robin polling on one thread, or fan-in of worker
//! events.

use vstd::prelude::*;
use crate::text;
use crate::text::push_nat;
use super::packet::SocketRecvMeta;
use super::worker::SocketWorkerEvent;

verus! {

/// Unified polling interface for multiple sockets: the turn of each of them.
#[derive(Debug, Clone, Copy, PartialEq, Eq, Structural)]
pub struct SocketOrchestrator {
    pub count: usize,
    pub next_idx: usize,
    /// Sockets still to poll in this round.
    pub left: usize,
}

impl SocketOrchestrator {
    /// The next socket exists, unless there are none.
    pub open spec fn wf(self) -> bool {
        &&& self.count > 0 ==> self.next_idx < self.count
        &&& self.left <= self.count
    }

    /// An orchestrator of a number of sockets before its first round.
    pub fn new(count: usize) -> (r: Self)
        ensures
            r.wf(),
            r == (SocketOrchestrator { count, next_idx: 0, left: 0 }),
    {
        SocketOrchestrator { count, next_idx: 0, left: 0 }
    }

    /// Number of sockets.
    pub fn socket_count(&self) -> (r: usize)
        ensures
            r == self.count,
    {
        self.count
    }

    /// Starts a round over all sockets.
    pub fn start(&mut self)
        requires
            old(self).wf(),
        ensures
            final(self).wf(),
            *final(self) == (SocketOrchestrator { left: old(self).count, ..*old(self) }),
    {
        self.left = self.count;
    }

    /// The socket to poll next in this round, while there is one.
    pub fn poll(&mut self) -> (r: Option<usize>)
        requires
            old(self).wf(),
        ensures
            final(self).wf(),
            final(self).count == old(self).count,
            match r {
                None => old(self).left == 0 && *final(self) == *old(self),
                Some(i) => {
                    &&& old(self).left > 0
                    &&& i == old(self).next_idx
                    &&& i < old(self).count
                    &&& final(self).next_idx == next_of(i as int, old(self).count as int)
                    &&& final(self).left == old(self).left - 1
                },
            },
    {
        if self.left == 0 {
            return None;
        }
        let i = self.next_idx;
        self.left = self.left - 1;
        self.next_idx = if i + 1 == self.count {
            0
        } else {
            i + 1
        };
        Some(i)
    }
}

/// The index behind another one, with wrap around.
pub open spec fn next_of(i: int, count: int) -> int {
    if i + 1 == count {
        0
    } else {
        i + 1
    }
}

/// The index that is polled as number `k` of a round that starts at `start`.
pub open spec fn polled(start: int, count: int, k: nat) -> int
    decreases k,
{
    if k == 0 {
        start
    } else {
        next_of(polled(start, count, (k - 1) as nat), count)
    }
}

proof fn lemma_polled(start: int, count: int, k: nat)
    requires
        0 <= start < count,
        k <= count,
    ensures
        polled(start, count, k) == if start + k < count {
            start + k
        } else {
            start + k - count
        },
    decreases k,
{
    if k > 0 {
        lemma_polled(start, count, (k - 1) as nat);
    }
}

/// A round polls each socket once, and the next round starts where the last one
/// ended, so that no socket is preferred.
pub proof fn law_rounds_are_fair(start: int, count: int, i: int)
    requires
        0 <= start < count,
        0 <= i < count,
    ensures
        exists|k: nat| k < count && #[trigger] polled(start, count, k) == i,
        forall|a: nat, b: nat|
            a < b < count ==> #[trigger] polled(start, count, a) != #[trigger] polled(
                start,
                count,
                b,
            ),
        polled(start, count, count as nat) == start,
{
    let k = (if i >= start {
        i - start
    } else {
        i - start + count
    }) as nat;
    lemma_polled(start, count, k);
    assert(polled(start, count, k) == i);
    assert forall|a: nat, b: nat| a < b < count implies #[trigger] polled(start, count, a)
        != #[trigger] polled(start, count, b) by {
        lemma_polled(start, count, a);
        lemma_polled(start, count, b);
    }
    lemma_polled(start, count, count as nat);
}

/// What the event queue of the workers gives.
#[derive(Debug)]
pub enum PoolOutcome {
    Event(SocketWorkerEvent),
    Timeout,
    Disconnected,
}

/// A packet of a worker: what is told of it, and the bytes that go to the buffer.
#[derive(Debug)]
pub struct PoolPacket {
    pub meta: SocketRecvMeta,
    pub bytes: Vec<u8>,
}

/// A worker in messages: its number, and its name where it is known.
pub open spec fn worker_text(socket_id: nat, names: Seq<String>) -> Seq<char> {
    if socket_id < names.len() {
        "Socket worker "@ + text::nat_text(socket_id) + " ("@ + names[socket_id as int]@ + ")"@
    } else {
        "Socket worker "@ + text::nat_text(socket_id)
    }
}

fn worker_name(socket_id: usize, names: &[String]) -> (s: String)
    ensures
        s@ == worker_text(socket_id as nat, names@),
{
    let mut s = "Socket worker ".to_owned();
    push_nat(&mut s, socket_id as u128);
    if socket_id < names.len() {
        s.push_str(" (");
        s.push_str(names[socket_id].as_str());
        s.push_str(")");
    }
    s
}

/// The size of a packet that is taken over.
pub open spec fn taken_size(size: usize, payload: nat) -> int {
    if size <= payload {
        size as int
    } else {
        payload as int
    }
}

/// Takes what the event queue of the workers gave: a packet for the buffer,
/// nothing on a timeout, or an error.
pub fn on_event(outcome: PoolOutcome, names: &[String], buf_len: usize) -> (r: Result<
    Option<PoolPacket>,
    String,
>)
    ensures
        match outcome {
            PoolOutcome::Event(
                SocketWorkerEvent::Packet { socket_id, meta, payload },
            ) => if payload@.len() > buf_len {
                r matches Err(e) && e@ == "Recv buffer too small: "@ + text::nat_text(
                    payload@.len(),
                ) + " > "@ + text::nat_text(buf_len as nat)
            } else {
                &&& r matches Ok(Some(packet))
                &&& packet.bytes@ == payload@.take(taken_size(meta.size, payload@.len()))
                &&& packet.meta == (SocketRecvMeta {
                    size: taken_size(meta.size, payload@.len()) as usize,
                    ..meta.received_on(socket_id)
                })
            },
            PoolOutcome::Event(SocketWorkerEvent::Error { socket_id, error }) => r matches Err(e)
                && e@ == worker_text(socket_id as nat, names@) + " error: "@ + error@,
            PoolOutcome::Event(SocketWorkerEvent::Closed { socket_id }) => r matches Err(e) && e@
                == worker_text(socket_id as nat, names@) + " closed"@,
            PoolOutcome::Timeout => r matches Ok(None),
            PoolOutcome::Disconnected => r matches Err(e) && e@
                == "Socket worker channel disconnected"@,
        },
{
    match outcome {
        PoolOutcome::Event(SocketWorkerEvent::Packet { socket_id, meta, payload }) => {
            if payload.len() > buf_len {
                let mut e = "Recv buffer too small: ".to_owned();
                push_nat(&mut e, payload.len() as u128);
                e.push_str(" > ");
                push_nat(&mut e, buf_len as u128);
                return Err(e);
            }
            let ghost all = payload@;
            let mut bytes = payload;
            if meta.size <= bytes.len() {
                bytes.truncate(meta.size);
            }
            assert(bytes@ =~= all.take(taken_size(meta.size, all.len())));
            let mut told = meta.on_socket(socket_id);
            told.size = bytes.len();
            Ok(Some(PoolPacket { meta: told, bytes }))
        },
        PoolOutcome::Event(SocketWorkerEvent::Error { socket_id, error }) => {
            let mut e = worker_name(socket_id, names);
            e.push_str(" error: ");
            e.push_str(error.as_str());
            Err(e)
        },
        PoolOutcome::Event(SocketWorkerEvent::Closed { socket_id }) => {
            let mut e = worker_name(socket_id, names);
            e.push_str(" closed");
            Err(e)
        },
        PoolOutcome::Timeout => Ok(None),
        PoolOutcome::Disconnected => Err("Socket worker channel disconnected".to_owned()),
    }
}

/// What is asked of one socket.
#[derive(Debug, Clone, Copy, PartialEq, Eq, Structural)]
pub enum SocketRequest {
    Send,
    Broadcast,
    UpdateMap,
}

/// Checks that a socket exists. `pooled` says that workers serve the sockets.
pub fn check_socket(socket_id: usize, count: usize, pooled: bool) -> (r: Result<(), String>)
    ensures
        match r {
            Ok(()) => socket_id < count,
            Err(e) => socket_id >= count && e@ == if pooled {
                "Socket worker index "@
            } else {
                "Socket index "@
            } + text::nat_text(socket_id as nat) + " out of range"@,
        },
{
    if socket_id < count {
        return Ok(());
    }
    let mut e = if pooled {
        "Socket worker index ".to_owned()
    } else {
        "Socket index ".to_owned()
    };
    push_nat(&mut e, socket_id as u128);
    e.push_str(" out of range");
    Err(e)
}

/// The error of a request to one socket.
pub fn request_error(request: SocketRequest, socket_id: usize, name: &str, error: &str) -> (e:
    String)
    ensures
        e@ == match request {
            SocketRequest::Send => "Unable to send on socket "@,
            SocketRequest::Broadcast => "Unable to broadcast on socket "@,
            SocketRequest::UpdateMap => "Unable to update socket "@,
        } + text::nat_text(socket_id as nat) + " ("@ + name@ + match request {
            SocketRequest::UpdateMap => ") map: "@,
            _ => "): "@,
        } + error@,
{
    let mut e = match request {
        SocketRequest::Send => "Unable to send on socket ".to_owned(),
        SocketRequest::Broadcast => "Unable to broadcast on socket ".to_owned(),
        SocketRequest::UpdateMap => "Unable to update socket ".to_owned(),
    };
    push_nat(&mut e, socket_id as u128);
    e.push_str(" (");
    e.push_str(name);
    match request {
        SocketRequest::UpdateMap => {
            e.push_str(") map: ");
        },
        _ => {
            e.push_str("): ");
        },
    }
    e.push_str(error);
    e
}

/// What is taken of a packet is no more than its size and no more than its payload, and
/// all that these allow.
pub proof fn law_taken_size_is_the_smaller(size: usize, payload: nat)
    ensures
        taken_size(size, payload) <= size,
        taken_size(size, payload) <= payload,
        taken_size(size, payload) == size || taken_size(size, payload) == payload,
{
}

} // verus!
