//! Unix datagram sockets for peripherals that are defined in software.

use vstd::prelude::*;
use crate::paths;
use crate::paths::push_part;
use crate::peripheral::id::PeripheralId;
use crate::text;
use crate::text::same_text;
use super::address_book::AddressBook;
use super::udp::MapError;

verus! {

/// The index of a path among those seen, or their number.
pub open spec fn seen_at(seen: Seq<Seq<char>>, path: Seq<char>, i: int) -> int
    decreases seen.len() - i,
{
    if i < 0 || i >= seen.len() || seen[i] == path {
        i
    } else {
        seen_at(seen, path, i + 1)
    }
}

/// The paths that a unix socket has seen, and the peripherals behind them.
#[derive(Debug)]
pub struct UnixSocket {
    /// Name of the socket. It should be short, since paths of sockets are limited.
    pub name: String,
    pub op_dir: String,
    pub open: bool,
    pub seen: Vec<String>,
    pub book: AddressBook,
    /// The sender of the last packet, by its index among those seen.
    pub last_received: Option<u64>,
}

impl UnixSocket {
    /// The book is in order and speaks of paths that were seen, and the last sender
    /// was seen.
    pub open spec fn wf(self) -> bool {
        &&& self.book.wf()
        &&& self.last_received matches Some(i) ==> i < self.seen@.len()
        &&& forall|id: PeripheralId|
            (#[trigger] self.book.token(id)) matches Some(token) ==> token < self.seen@.len()
    }

    /// A closed socket.
    pub fn new(name: &str) -> (r: Self)
        ensures
            r.wf(),
            r.name@ == name@,
            r.op_dir@.len() == 0,
            !r.open,
            r.seen@.len() == 0,
            r.last_received is None,
            r.book.empty(),
    {
        UnixSocket {
            name: name.to_owned(),
            op_dir: String::new(),
            open: false,
            seen: Vec::new(),
            book: AddressBook::new(),
            last_received: None,
        }
    }

    /// Socket name, which is used to build the socket address.
    pub fn name(&self) -> (r: &str)
        ensures
            r@ == self.name@,
    {
        self.name.as_str()
    }

    /// The path to the socket, at `{op_dir}/sock/{name}`.
    pub fn path(&self) -> (s: String)
        ensures
            s@ == paths::under(paths::under(self.op_dir@, "sock"@), self.name@),
    {
        let mut s = self.op_dir.as_str().to_owned();
        push_part(&mut s, "sock");
        push_part(&mut s, self.name.as_str());
        s
    }

    /// Directory where peripheral sockets are expected, at `{op_dir}/sock/per`.
    pub fn peripheral_socket_dir(&self) -> (s: String)
        ensures
            s@ == paths::under(paths::under(self.op_dir@, "sock"@), "per"@),
    {
        let mut s = self.op_dir.as_str().to_owned();
        push_part(&mut s, "sock");
        push_part(&mut s, "per");
        s
    }

    /// Checks that the socket may be opened, and takes the directory of the op.
    pub fn prepare(&mut self, op_dir: String) -> (r: Result<(), String>)
        ensures
            match r {
                Ok(()) => !old(self).open && *final(self) == (UnixSocket { op_dir, ..*old(self) }),
                Err(e) => old(self).open && *final(self) == *old(self) && e@
                    == "Socket already open"@,
            },
    {
        if self.open {
            return Err("Socket already open".to_owned());
        }
        self.op_dir = op_dir;
        Ok(())
    }

    /// Takes note that the socket was bound.
    pub fn opened(&mut self)
        ensures
            *final(self) == (UnixSocket { open: true, ..*old(self) }),
    {
        self.open = true;
    }

    /// Closes the socket and forgets all addresses. The path of the socket file
    /// is what remains to be removed.
    pub fn close(&mut self) -> (s: String)
        ensures
            s@ == paths::under(paths::under(old(self).op_dir@, "sock"@), old(self).name@),
            final(self).wf(),
            final(self).name == old(self).name,
            final(self).op_dir@.len() == 0,
            !final(self).open,
            final(self).seen@.len() == 0,
            final(self).last_received is None,
            final(self).book.empty(),
    {
        let path = self.path();
        self.open = false;
        self.seen = Vec::new();
        self.book = AddressBook::new();
        self.last_received = None;
        self.op_dir = String::new();
        path
    }

    /// The path to send to for a peripheral.
    pub fn send_target(&self, id: PeripheralId) -> (r: Result<String, String>)
        requires
            self.wf(),
        ensures
            match self.book.token(id) {
                None => r matches Err(e) && e@ == "Peripheral not present in address map: "@
                    + id.shown(),
                Some(token) => if self.open {
                    r matches Ok(path) && path@ == self.seen@[token as int]@
                } else {
                    r matches Err(e) && e@ == "Unable to send before socket is bound"@
                },
            },
    {
        assert(self.seen.len() == self.seen@.len());
        match self.book.token_of(id) {
            None => {
                let mut e = "Peripheral not present in address map: ".to_owned();
                e.push_str(id.show().as_str());
                Err(e)
            },
            Some(token) => if self.open {
                Ok(self.seen[token as usize].as_str().to_owned())
            } else {
                Err("Unable to send before socket is bound".to_owned())
            },
        }
    }

    /// Takes the sender of a packet, and says which peripheral it is, where that
    /// is known.
    pub fn received(&mut self, path: &str) -> (pid: Option<PeripheralId>)
        requires
            old(self).wf(),
            old(self).seen.len() < u64::MAX,
        ensures
            final(self).wf(),
            final(self).name == old(self).name,
            final(self).op_dir == old(self).op_dir,
            final(self).open == old(self).open,
            final(self).book == old(self).book,
            ({
                let token = seen_at(text::texts(old(self).seen@), path@, 0);
                &&& final(self).last_received == Some(token as u64)
                &&& pid == old(self).book.id(token as u64)
                &&& text::texts(final(self).seen@) == if token < old(self).seen@.len() {
                    text::texts(old(self).seen@)
                } else {
                    text::texts(old(self).seen@).push(path@)
                }
            }),
    {
        broadcast use text::lemma_texts_push;

        let ghost all = text::texts(self.seen@);
        assert(all.len() == self.seen@.len());
        let mut i: usize = 0;
        while i < self.seen.len() && !same_text(self.seen[i].as_str(), path)
            invariant
                i <= self.seen@.len(),
                all == text::texts(self.seen@),
                all.len() == self.seen@.len(),
                seen_at(all, path@, 0) == seen_at(all, path@, i as int),
            decreases self.seen@.len() - i,
        {
            assert(all[i as int] == self.seen@[i as int]@);
            i = i + 1;
        }
        if i == self.seen.len() {
            self.seen.push(path.to_owned());
        } else {
            assert(all[i as int] == self.seen@[i as int]@);
        }
        let token = i as u64;
        self.last_received = Some(token);
        self.book.id_of(token)
    }

    /// Associates the sender of the last packet with a peripheral. Without a
    /// packet there is nothing to do.
    pub fn update_map(&mut self, id: PeripheralId) -> (r: Result<(), MapError>)
        requires
            old(self).wf(),
        ensures
            final(self).wf(),
            final(self).name == old(self).name,
            final(self).op_dir == old(self).op_dir,
            final(self).open == old(self).open,
            final(self).seen == old(self).seen,
            final(self).last_received == old(self).last_received,
            match old(self).last_received {
                None => r is Ok && final(self).book == old(self).book,
                Some(token) => {
                    &&& r == if final(self).book.tokens@.len() == final(self).book.ids@.len() {
                        Ok::<(), MapError>(())
                    } else {
                        Err::<(), MapError>(MapError::Duplicates)
                    }
                    &&& final(self).book.mapped(old(self).book, id, token)
                },
            },
    {
        if let Some(token) = self.last_received {
            if !self.book.update(id, token) {
                return Err(MapError::Duplicates);
            }
        }
        Ok(())
    }
}

proof fn lemma_seen(seen: Seq<Seq<char>>, path: Seq<char>, i: int)
    requires
        0 <= i <= seen.len(),
    ensures
        i <= seen_at(seen, path, i) <= seen.len(),
        seen_at(seen, path, i) < seen.len() ==> seen[seen_at(seen, path, i)] == path,
        seen_at(seen, path, i) == seen.len() ==> forall|k: int|
            i <= k < seen.len() ==> seen[k] != path,
    decreases seen.len() - i,
{
    if i < seen.len() && seen[i] != path {
        lemma_seen(seen, path, i + 1);
    }
}

/// Once the sender of a packet is associated with a peripheral, what is sent to the
/// peripheral goes to that sender's path, and the sender's next packet is known to be
/// from the peripheral.
pub proof fn law_mapped_sender_is_reached(
    before: UnixSocket,
    after: UnixSocket,
    id: PeripheralId,
    path: Seq<char>,
)
    requires
        text::texts(before.seen@).contains(path),
        after.seen == before.seen,
        after.book.mapped(before.book, id, seen_at(text::texts(before.seen@), path, 0) as u64),
        before.seen@.len() <= u64::MAX,
    ensures
        ({
            let token = seen_at(text::texts(after.seen@), path, 0);
            &&& after.book.token(id) == Some(token as u64)
            &&& after.seen@[token]@ == path
            &&& after.book.id(token as u64) == Some(id)
        }),
{
    lemma_seen(text::texts(before.seen@), path, 0);
}

/// Whether a packet is sent to an entry of the directory of peripheral sockets:
/// sockets are neither files nor directories.
pub fn may_be_socket(is_dir: bool, is_file: bool) -> (r: bool)
    ensures
        r == (!is_dir && !is_file),
{
    !(is_dir || is_file)
}

} // verus!
