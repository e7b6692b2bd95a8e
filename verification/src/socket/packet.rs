//! What is known of a received packet.

use vstd::prelude::*;
use crate::peripheral::id::PeripheralId;

verus! {

/// A received packet as a socket tells of it.
#[derive(Debug, Clone, Copy, PartialEq, Eq, Structural)]
pub struct SocketPacketMeta {
    /// Peripheral that sent it, where its address is known.
    pub pid: Option<PeripheralId>,
    /// Number of the address that it came from.
    pub token: u64,
    /// Arrival time in nanoseconds of a monotonic clock.
    pub time_ns: u64,
    /// Size in bytes.
    pub size: usize,
}

/// A received packet together with the socket that it came in on.
#[derive(Debug, Clone, Copy, PartialEq, Eq, Structural)]
pub struct SocketRecvMeta {
    pub socket_id: usize,
    pub pid: Option<PeripheralId>,
    pub token: u64,
    pub time_ns: u64,
    pub size: usize,
}

impl SocketPacketMeta {
    /// The packet on a socket.
    pub open spec fn received_on(self, socket_id: usize) -> SocketRecvMeta {
        SocketRecvMeta {
            socket_id,
            pid: self.pid,
            token: self.token,
            time_ns: self.time_ns,
            size: self.size,
        }
    }

    /// Says which socket the packet came in on.
    pub fn on_socket(self, socket_id: usize) -> (r: SocketRecvMeta)
        ensures
            r == self.received_on(socket_id),
    {
        SocketRecvMeta {
            socket_id,
            pid: self.pid,
            token: self.token,
            time_ns: self.time_ns,
            size: self.size,
        }
    }
}

} // verus!
