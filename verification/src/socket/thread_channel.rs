//! One-to-one in-process socket keyed by a peripheral identity.

use vstd::prelude::*;
use crate::peripheral::id::PeripheralId;

verus! {

/// Controller-side socket for one in-process peripheral responder.
#[derive(Debug)]
pub struct ThreadChannelSocket {
    pub model_number: u64,
    pub serial_number: u64,
    pub open: bool,
}

impl ThreadChannelSocket {
    /// The only peripheral reachable through this socket.
    pub open spec fn peer(self) -> PeripheralId {
        PeripheralId { model_number: self.model_number, serial_number: self.serial_number }
    }

    /// Creates a closed socket dedicated to `id`.
    pub fn new(id: PeripheralId) -> (r: Self)
        ensures
            r.peer() == id,
            !r.open,
    {
        ThreadChannelSocket {
            model_number: id.model_number,
            serial_number: id.serial_number,
            open: false,
        }
    }

    /// The only peripheral identity reachable through this socket.
    pub fn id(&self) -> (r: PeripheralId)
        ensures
            r == self.peer(),
    {
        PeripheralId { model_number: self.model_number, serial_number: self.serial_number }
    }

    /// The canonical socket-map name for `id`.
    pub fn socket_name(id: PeripheralId) -> (s: String)
        ensures
            s@ == "thread-"@ + id.in_names(),
    {
        id.name_behind("thread-")
    }

    /// Checks that a packet may be sent to a peripheral.
    pub fn check_send(&self, id: PeripheralId) -> (r: Result<(), String>)
        ensures
            match r {
                Ok(()) => id == self.peer() && self.open,
                Err(e) => if id != self.peer() {
                    e@ == "ThreadChannelSocket for "@ + self.peer().shown() + " cannot send to "@
                        + id.shown()
                } else {
                    !self.open && e@ == "Unable to send before ThreadChannelSocket is open"@
                },
            },
    {
        let expected = self.id();
        if id != expected {
            let mut e = "ThreadChannelSocket for ".to_owned();
            e.push_str(expected.show().as_str());
            e.push_str(" cannot send to ");
            e.push_str(id.show().as_str());
            return Err(e);
        }
        if !self.open {
            return Err("Unable to send before ThreadChannelSocket is open".to_owned());
        }
        Ok(())
    }

    /// The part of a packet that fits into a buffer.
    pub fn received_size(packet_len: usize, buf_len: usize) -> (r: usize)
        ensures
            r == if packet_len <= buf_len {
                packet_len
            } else {
                buf_len
            },
    {
        if packet_len <= buf_len {
            packet_len
        } else {
            buf_len
        }
    }

    /// Checks the identity of the peripheral behind the socket.
    pub fn update_map(&self, id: PeripheralId) -> (r: Result<(), String>)
        ensures
            match r {
                Ok(()) => id == self.peer(),
                Err(e) => id != self.peer() && e@ == "ThreadChannelSocket for "@
                    + self.peer().shown() + " received identity "@ + id.shown(),
            },
    {
        let expected = self.id();
        if id == expected {
            Ok(())
        } else {
            let mut e = "ThreadChannelSocket for ".to_owned();
            e.push_str(expected.show().as_str());
            e.push_str(" received identity ");
            e.push_str(id.show().as_str());
            Err(e)
        }
    }
}

} // verus!
