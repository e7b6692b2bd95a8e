//! UDP sockets on IPv4: broadcast targets and the addresses of peripherals.
//! Addresses are numbers in network order.

use vstd::prelude::*;
use crate::peripheral::id::PeripheralId;
use crate::text;
use crate::text::{join, push_nat};
use super::address_book::AddressBook;
use super::packet::SocketPacketMeta;

verus! {

/// The limited broadcast address.
pub const BROADCAST: u32 = 0xffff_ffff;

/// The directed broadcast address of an address and its mask.
pub fn broadcast_from_addr_and_mask(addr: u32, netmask: u32) -> (r: u32)
    ensures
        r == addr | !netmask,
{
    addr | !netmask
}

/// Numbers that increase.
pub open spec fn ascending(v: Seq<u32>) -> bool {
    forall|i: int, j: int| 0 <= i < j < v.len() ==> #[trigger] v[i] < #[trigger] v[j]
}

fn insert_target(v: &mut Vec<u32>, x: u32)
    requires
        ascending(old(v)@),
    ensures
        ascending(final(v)@),
        final(v)@.to_set() == old(v)@.to_set().insert(x),
{
    let ghost before = v@;
    let mut i: usize = 0;
    while i < v.len() && v[i] < x
        invariant
            i <= v@.len(),
            v@ == before,
            ascending(v@),
            forall|k: int| 0 <= k < i ==> #[trigger] v@[k] < x,
        decreases v@.len() - i,
    {
        i = i + 1;
    }
    if i < v.len() && v[i] == x {
        assert(before.to_set() =~= before.to_set().insert(x)) by {
            assert(before[i as int] == x);
        }
        return;
    }
    v.insert(i, x);
    proof {
        let after = before.insert(i as int, x);
        assert forall|a: int, b: int| 0 <= a < b < after.len() implies #[trigger] after[a]
            < #[trigger] after[b] by {
            let pa = if a < i {
                a
            } else {
                a - 1
            };
            let pb = if b < i {
                b
            } else {
                b - 1
            };
            if a != i && b != i {
                assert(before[pa] < before[pb]);
            } else if a == i {
                assert(before[i as int] <= before[pb]);
            }
        }
        assert(after.to_set() =~= before.to_set().insert(x)) by {
            assert forall|y: u32| after.to_set().contains(y) <==> before.to_set().insert(
                x,
            ).contains(y) by {
                if before.contains(y) {
                    let k = choose|k: int| 0 <= k < before.len() && before[k] == y;
                    assert(after[if k < i {
                        k
                    } else {
                        k + 1
                    }] == y);
                }
                if y == x {
                    assert(after[i as int] == x);
                }
                if after.contains(y) {
                    let k = choose|k: int| 0 <= k < after.len() && after[k] == y;
                    if k < i {
                        assert(before[k] == y);
                    } else if k > i {
                        assert(before[k - 1] == y);
                    }
                }
            }
        }
    }
}

/// Sorts addresses and drops repetitions.
pub fn dedup_broadcast_targets(targets: &[u32]) -> (v: Vec<u32>)
    ensures
        ascending(v@),
        v@.to_set() == targets@.to_set(),
{
    let mut v: Vec<u32> = Vec::new();
    let mut i: usize = 0;
    assert(v@.to_set() =~= targets@.take(0).to_set());
    while i < targets.len()
        invariant
            i <= targets@.len(),
            ascending(v@),
            v@.to_set() == targets@.take(i as int).to_set(),
        decreases targets@.len() - i,
    {
        insert_target(&mut v, targets[i]);
        proof {
            let t = targets@.take(i + 1);
            assert(t.drop_last() =~= targets@.take(i as int));
            assert(t.to_set() =~= t.drop_last().to_set().insert(t.last())) by {
                assert(t =~= t.drop_last().push(t.last()));
                assert forall|y: u32| t.to_set().contains(y) <==> t.drop_last().to_set().insert(
                    t.last(),
                ).contains(y) by {
                    if t.contains(y) && y != t.last() {
                        let k = choose|k: int| 0 <= k < t.len() && t[k] == y;
                        assert(t.drop_last()[k] == y);
                    }
                    if t.drop_last().contains(y) {
                        let k = choose|k: int| 0 <= k < t.len() - 1 && t.drop_last()[k] == y;
                        assert(t[k] == y);
                    }
                    if y == t.last() {
                        assert(t[t.len() - 1] == y);
                    }
                }
            }
        }
        i = i + 1;
    }
    assert(targets@.take(targets@.len() as int) =~= targets@);
    v
}

/// One address of a network interface, as far as it is IPv4.
#[derive(Debug, Clone, Copy, PartialEq, Eq, Structural)]
pub struct InterfaceAddr {
    pub ip: Option<u32>,
    pub broadcast: Option<u32>,
    pub netmask: Option<u32>,
}

/// Whether an address is a loopback address.
pub open spec fn loopback(ip: u32) -> bool {
    ip / 0x100_0000 == 127
}

/// Whether a broadcast address can be used from an address.
pub open spec fn usable(target: u32, ip: u32) -> bool {
    target != ip && target != 0
}

/// The broadcast target of an interface address: what the system reports, else
/// what address and mask give.
pub open spec fn target_of(a: InterfaceAddr) -> Option<u32> {
    match a.ip {
        Some(ip) => if loopback(ip) || ip == 0 {
            None
        } else if a.broadcast is Some && usable(a.broadcast->Some_0, ip) {
            a.broadcast
        } else {
            match a.netmask {
                Some(mask) => if usable(ip | !mask, ip) {
                    Some(ip | !mask)
                } else {
                    None
                },
                None => None,
            }
        },
        None => None,
    }
}

fn find_target(a: InterfaceAddr) -> (r: Option<u32>)
    ensures
        r == target_of(a),
{
    match a.ip {
        Some(ip) => {
            if ip / 0x100_0000 == 127 || ip == 0 {
                return None;
            }
            if let Some(broadcast) = a.broadcast {
                if broadcast != ip && broadcast != 0 {
                    return Some(broadcast);
                }
            }
            match a.netmask {
                Some(mask) => {
                    let broadcast = broadcast_from_addr_and_mask(ip, mask);
                    if broadcast != ip && broadcast != 0 {
                        Some(broadcast)
                    } else {
                        None
                    }
                },
                None => None,
            }
        },
        None => None,
    }
}

/// The targets of the first addresses, with the limited broadcast address.
pub open spec fn targets_of(addrs: Seq<InterfaceAddr>) -> Set<u32>
    decreases addrs.len(),
{
    if addrs.len() == 0 {
        set![BROADCAST]
    } else {
        let before = targets_of(addrs.drop_last());
        match target_of(addrs.last()) {
            Some(t) => before.insert(t),
            None => before,
        }
    }
}

/// The IPv4 broadcast addresses that can plausibly be used for discovery: the
/// limited one as a fallback, and those of the interface addresses. Where the
/// interfaces could not be listed, `addrs` is empty, and the limited one is left.
pub fn possible_broadcast_targets(addrs: &[InterfaceAddr]) -> (v: Vec<u32>)
    ensures
        ascending(v@),
        v@.to_set() == targets_of(addrs@),
        v@.contains(BROADCAST),
{
    let mut v: Vec<u32> = Vec::new();
    insert_target(&mut v, BROADCAST);
    let mut i: usize = 0;
    assert(addrs@.take(0) =~= Seq::<InterfaceAddr>::empty());
    assert(v@.to_set() =~= targets_of(addrs@.take(0)));
    while i < addrs.len()
        invariant
            i <= addrs@.len(),
            ascending(v@),
            v@.to_set() == targets_of(addrs@.take(i as int)),
        decreases addrs@.len() - i,
    {
        assert(addrs@.take(i + 1).drop_last() =~= addrs@.take(i as int));
        if let Some(t) = find_target(addrs[i]) {
            insert_target(&mut v, t);
        }
        i = i + 1;
    }
    assert(addrs@.take(addrs@.len() as int) =~= addrs@);
    proof {
        lemma_limited_broadcast(addrs@);
        assert(v@.to_set().contains(BROADCAST));
    }
    v
}

proof fn lemma_limited_broadcast(addrs: Seq<InterfaceAddr>)
    ensures
        targets_of(addrs).contains(BROADCAST),
    decreases addrs.len(),
{
    if addrs.len() > 0 {
        lemma_limited_broadcast(addrs.drop_last());
    }
}

/// Address and port of a peripheral.
#[derive(Debug, Clone, Copy, PartialEq, Eq, Structural)]
pub struct Endpoint {
    pub ip: u32,
    pub port: u16,
}

/// Why an association was not made or is doubtful.
#[derive(Debug, Clone, Copy, PartialEq, Eq, Structural)]
pub enum MapError {
    /// No address has this token.
    UnknownToken(u64),
    /// Two peripherals or two addresses stand for one.
    Duplicates,
}

impl MapError {
    /// The message of the error. The texts show the two maps.
    pub fn message(self, addrs: &str, pids: &str) -> (s: String)
        ensures
            s@ == match self {
                MapError::UnknownToken(token) => "Unknown address token "@ + text::nat_text(
                    token as nat,
                ),
                MapError::Duplicates =>
                    "Duplicate addresses or peripheral IDs detected.\nAddress map: "@ + addrs@
                    + "\nPeripheral ID map: "@ + pids@,
            },
    {
        match self {
            MapError::UnknownToken(token) => {
                let mut s = "Unknown address token ".to_owned();
                push_nat(&mut s, token as u128);
                s
            },
            MapError::Duplicates => {
                let mut s = "Duplicate addresses or peripheral IDs detected.\nAddress map: ".to_owned();
                s.push_str(addrs);
                s.push_str("\nPeripheral ID map: ");
                s.push_str(pids);
                s
            },
        }
    }
}

/// The index of an address among those seen, or their number.
pub open spec fn seen_at(seen: Seq<Endpoint>, e: Endpoint, i: int) -> int
    decreases seen.len() - i,
{
    if i < 0 || i >= seen.len() || seen[i] == e {
        i
    } else {
        seen_at(seen, e, i + 1)
    }
}

/// The addresses that a UDP socket has seen, and the peripherals behind them.
#[derive(Debug)]
pub struct UdpSocket {
    /// Where discovery is sent. None means all targets that can be found.
    pub broadcast_targets: Vec<u32>,
    pub open: bool,
    pub nonblocking: bool,
    /// The addresses seen, by their tokens.
    pub seen: Vec<Endpoint>,
    pub book: AddressBook,
}

impl UdpSocket {
    /// The book is in order and speaks of addresses that were seen, of which each
    /// has one token.
    pub open spec fn wf(self) -> bool {
        &&& self.book.wf()
        &&& self.seen@.no_duplicates()
        &&& forall|id: PeripheralId|
            (#[trigger] self.book.token(id)) matches Some(token) ==> token < self.seen@.len()
    }

    /// A closed socket that broadcasts to all targets that can be found.
    pub fn new() -> (r: Self)
        ensures
            r.wf(),
            r.broadcast_targets@.len() == 0,
            !r.open,
            !r.nonblocking,
            r.seen@.len() == 0,
            r.book.empty(),
    {
        UdpSocket {
            broadcast_targets: Vec::new(),
            open: false,
            nonblocking: false,
            seen: Vec::new(),
            book: AddressBook::new(),
        }
    }

    /// A closed socket that broadcasts only to the given targets.
    pub fn with_broadcast_targets(targets: &[u32]) -> (r: Self)
        ensures
            r.wf(),
            ascending(r.broadcast_targets@),
            r.broadcast_targets@.to_set() == targets@.to_set(),
            !r.open,
            !r.nonblocking,
            r.seen@.len() == 0,
            r.book.empty(),
    {
        UdpSocket {
            broadcast_targets: dedup_broadcast_targets(targets),
            open: false,
            nonblocking: false,
            seen: Vec::new(),
            book: AddressBook::new(),
        }
    }

    /// Where discovery is sent: the given targets, or else those of the interface
    /// addresses.
    pub fn broadcast_targets(&self, addrs: &[InterfaceAddr]) -> (v: Vec<u32>)
        ensures
            self.broadcast_targets@.len() > 0 ==> v@ == self.broadcast_targets@,
            self.broadcast_targets@.len() == 0 ==> ascending(v@) && v@.to_set() == targets_of(
                addrs@,
            ),
    {
        if self.broadcast_targets.len() == 0 {
            possible_broadcast_targets(addrs)
        } else {
            let mut v: Vec<u32> = Vec::new();
            let mut i: usize = 0;
            while i < self.broadcast_targets.len()
                invariant
                    i <= self.broadcast_targets@.len(),
                    v@ == self.broadcast_targets@.take(i as int),
                decreases self.broadcast_targets@.len() - i,
            {
                v.push(self.broadcast_targets[i]);
                assert(v@ =~= self.broadcast_targets@.take(i + 1));
                i = i + 1;
            }
            assert(self.broadcast_targets@.take(i as int) =~= self.broadcast_targets@);
            v
        }
    }

    /// Takes note that the socket was bound. Polling loops do not block.
    pub fn opened(&mut self, polling: bool)
        ensures
            final(self).open,
            final(self).nonblocking == polling,
            final(self).broadcast_targets == old(self).broadcast_targets,
            final(self).seen == old(self).seen,
            final(self).book == old(self).book,
    {
        self.open = true;
        self.nonblocking = polling;
    }

    /// Closes the socket and forgets all addresses.
    pub fn close(&mut self)
        ensures
            final(self).wf(),
            !final(self).open,
            !final(self).nonblocking,
            final(self).broadcast_targets == old(self).broadcast_targets,
            final(self).seen@.len() == 0,
            final(self).book.empty(),
    {
        self.open = false;
        self.nonblocking = false;
        self.seen = Vec::new();
        self.book = AddressBook::new();
    }

    /// The address to send to for a peripheral.
    pub fn send_target(&self, id: PeripheralId) -> (r: Result<Endpoint, String>)
        requires
            self.wf(),
        ensures
            match self.book.token(id) {
                None => r matches Err(e) && e@ == "Peripheral not present in address map: "@
                    + id.shown(),
                Some(token) => if self.open {
                    r == Ok::<Endpoint, String>(self.seen@[token as int])
                } else {
                    r matches Err(e) && e@ == "Unable to send before socket is bound"@
                },
            },
    {
        assert(self.seen.len() == self.seen@.len());
        match self.book.token_of(id) {
            None => {
                let mut e = "Peripheral not present in address map: ".to_owned();
                e.push_str(id.show().as_str());
                Err(e)
            },
            Some(token) => if self.open {
                Ok(self.seen[token as usize])
            } else {
                Err("Unable to send before socket is bound".to_owned())
            },
        }
    }

    /// The read timeout to set before a packet is waited for: a zero timeout must
    /// not block forever.
    pub fn read_timeout_ns(&self, timeout_ns: u64) -> (r: Option<u64>)
        ensures
            r == if timeout_ns > 0 {
                Some(timeout_ns)
            } else if self.nonblocking {
                None
            } else {
                Some(1u64)
            },
    {
        if timeout_ns > 0 {
            Some(timeout_ns)
        } else if self.nonblocking {
            None
        } else {
            Some(1)
        }
    }

    /// Takes a packet that was received at a time. One from another port than
    /// that of peripherals is dropped; a new address gets the next token.
    pub fn received(&mut self, from: Endpoint, peripheral_port: u16, time_ns: u64, size: usize) -> (r:
        Option<SocketPacketMeta>)
        requires
            old(self).wf(),
            old(self).seen.len() < u64::MAX,
        ensures
            final(self).wf(),
            final(self).broadcast_targets == old(self).broadcast_targets,
            final(self).open == old(self).open,
            final(self).nonblocking == old(self).nonblocking,
            final(self).book == old(self).book,
            match r {
                None => from.port != peripheral_port && final(self).seen == old(self).seen,
                Some(meta) => {
                    &&& from.port == peripheral_port
                    &&& meta.token == seen_at(old(self).seen@, from, 0)
                    &&& meta.pid == old(self).book.id(meta.token)
                    &&& meta.time_ns == time_ns
                    &&& meta.size == size
                    &&& final(self).seen@ == if meta.token < old(self).seen@.len() {
                        old(self).seen@
                    } else {
                        old(self).seen@.push(from)
                    }
                    &&& final(self).seen@[meta.token as int] == from
                },
            },
    {
        if from.port != peripheral_port {
            return None;
        }
        let mut i: usize = 0;
        while i < self.seen.len() && self.seen[i] != from
            invariant
                i <= self.seen@.len(),
                seen_at(self.seen@, from, 0) == seen_at(self.seen@, from, i as int),
            decreases self.seen@.len() - i,
        {
            i = i + 1;
        }
        if i == self.seen.len() {
            proof {
                lemma_not_seen(self.seen@, from, 0);
            }
            self.seen.push(from);
        }
        let token = i as u64;
        Some(SocketPacketMeta { pid: self.book.id_of(token), token, time_ns, size })
    }

    /// Associates the address with a token with a peripheral.
    pub fn update_map(&mut self, id: PeripheralId, token: u64) -> (r: Result<(), MapError>)
        requires
            old(self).wf(),
        ensures
            final(self).wf(),
            final(self).broadcast_targets == old(self).broadcast_targets,
            final(self).open == old(self).open,
            final(self).nonblocking == old(self).nonblocking,
            final(self).seen == old(self).seen,
            token >= old(self).seen@.len() ==> r == Err::<(), MapError>(
                MapError::UnknownToken(token),
            ) && final(self).book == old(self).book,
            token < old(self).seen@.len() ==> {
                &&& r == if final(self).book.tokens@.len() == final(self).book.ids@.len() {
                    Ok::<(), MapError>(())
                } else {
                    Err::<(), MapError>(MapError::Duplicates)
                }
                &&& final(self).book.mapped(old(self).book, id, token)
            },
    {
        if token >= self.seen.len() as u64 {
            return Err(MapError::UnknownToken(token));
        }
        if self.book.update(id, token) {
            Ok(())
        } else {
            Err(MapError::Duplicates)
        }
    }
}

/// The outcome of a broadcast: one target that was reached is enough. `errors`
/// are those of the targets that were not.
pub fn broadcast_outcome(sent_any: bool, errors: &[String]) -> (r: Result<(), String>)
    ensures
        match r {
            Ok(()) => sent_any,
            Err(e) => !sent_any && e@ == "Failed to send UDP packet on any broadcast target: "@
                + text::joined(text::texts(errors@), "; "@),
        },
{
    if sent_any {
        return Ok(());
    }
    let mut e = "Failed to send UDP packet on any broadcast target: ".to_owned();
    e.push_str(join(errors, "; ").as_str());
    Err(e)
}

proof fn lemma_not_seen(seen: Seq<Endpoint>, e: Endpoint, i: int)
    requires
        0 <= i <= seen.len(),
    ensures
        i <= seen_at(seen, e, i) <= seen.len(),
        seen_at(seen, e, i) < seen.len() ==> seen[seen_at(seen, e, i)] == e,
        seen_at(seen, e, i) == seen.len() ==> forall|k: int| i <= k < seen.len() ==> seen[k] != e,
    decreases seen.len() - i,
{
    if i < seen.len() && seen[i] != e {
        lemma_not_seen(seen, e, i + 1);
    }
}

/// Once an address is associated with a peripheral, what is sent to the peripheral
/// goes to that address, and a packet from the address is known to be from the
/// peripheral.
pub proof fn law_mapped_peripheral_is_reached(
    before: UdpSocket,
    after: UdpSocket,
    id: PeripheralId,
    from: Endpoint,
)
    requires
        before.wf(),
        before.seen@.contains(from),
        after.seen == before.seen,
        after.book.mapped(before.book, id, seen_at(before.seen@, from, 0) as u64),
        before.seen@.len() <= u64::MAX,
    ensures
        ({
            let token = seen_at(after.seen@, from, 0);
            &&& after.book.token(id) == Some(token as u64)
            &&& after.seen@[token] == from
            &&& after.book.id(token as u64) == Some(id)
        }),
{
    lemma_not_seen(before.seen@, from, 0);
}

/// The directed broadcast address keeps the network bits and sets all others.
pub proof fn law_broadcast_sets_the_host_bits(addr: u32, netmask: u32)
    ensures
        (addr | !netmask) & netmask == addr & netmask,
        (addr | !netmask) | netmask == 0xffff_ffff,
{
    assert((addr | !netmask) & netmask == addr & netmask) by (bit_vector);
    assert((addr | !netmask) | netmask == 0xffff_ffff) by (bit_vector);
}

/// An address of the loopback network, the unspecified address and one that is not
/// IPv4 have no broadcast target.
pub proof fn law_loopback_has_no_target(a: InterfaceAddr)
    ensures
        a.ip is None ==> target_of(a) is None,
        a.ip == Some(0u32) ==> target_of(a) is None,
        a.ip matches Some(ip) ==> (0x7f00_0000 <= ip <= 0x7fff_ffff ==> target_of(a) is None),
{
}

/// The broadcast target of any other address is what the system reports, where that
/// is neither the address itself nor unspecified. Else it is the address of the same
/// network with all host bits set.
pub proof fn law_target_is_reported_or_of_the_network(a: InterfaceAddr, ip: u32)
    requires
        a.ip == Some(ip),
        ip != 0,
        !(0x7f00_0000 <= ip <= 0x7fff_ffff),
    ensures
        a.broadcast matches Some(b) ==> (b != ip && b != 0 ==> target_of(a) == Some(b)),
        target_of(a) matches Some(t) ==> t != ip && t != 0,
        target_of(a) is Some && target_of(a) != a.broadcast ==> (a.netmask matches Some(mask) && {
            let t = target_of(a)->0;
            &&& t & mask == ip & mask
            &&& t | mask == 0xffff_ffff
        }),
        (a.broadcast is None || a.broadcast == Some(ip) || a.broadcast == Some(0u32)) ==> (
        target_of(a) is Some <==> (a.netmask matches Some(mask) && ip | mask != 0xffff_ffff)),
{
    if let Some(mask) = a.netmask {
        law_broadcast_sets_the_host_bits(ip, mask);
        assert(ip | !mask != 0) by (bit_vector)
            requires
                ip != 0,
        ;
        assert(ip | !mask == ip <==> ip | mask == 0xffff_ffff) by (bit_vector);
    }
}

/// The targets are the limited broadcast address and the target of each interface
/// address that has one.
pub proof fn law_targets_are_of_the_interfaces(addrs: Seq<InterfaceAddr>, t: u32)
    ensures
        targets_of(addrs).contains(t) <==> t == 0xffff_ffff || exists|i: int|
            0 <= i < addrs.len() && target_of(#[trigger] addrs[i]) == Some(t),
    decreases addrs.len(),
{
    if addrs.len() > 0 {
        let front = addrs.drop_last();
        law_targets_are_of_the_interfaces(front, t);
        if exists|i: int| 0 <= i < front.len() && target_of(#[trigger] front[i]) == Some(t) {
            let i = choose|i: int| 0 <= i < front.len() && target_of(#[trigger] front[i]) == Some(t);
            assert(target_of(addrs[i]) == Some(t));
        }
        if target_of(addrs.last()) == Some(t) {
            assert(target_of(addrs[addrs.len() - 1]) == Some(t));
        }
        if exists|i: int| 0 <= i < addrs.len() && target_of(#[trigger] addrs[i]) == Some(t) {
            let i = choose|i: int| 0 <= i < addrs.len() && target_of(#[trigger] addrs[i]) == Some(t);
            if i < front.len() {
                assert(target_of(front[i]) == Some(t));
            }
        }
    }
}

} // verus!
