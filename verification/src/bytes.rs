//! Little-endian numbers in byte packets.

use vstd::prelude::*;

verus! {

/// The number with the given bytes, the least significant first.
pub open spec fn le_value(s: Seq<u8>) -> nat
    decreases s.len(),
{
    if s.len() == 0 {
        0
    } else {
        s[0] as nat + 256 * le_value(s.skip(1))
    }
}

/// The lowest `len` bytes of a number, the least significant first.
pub open spec fn le_bytes(n: nat, len: nat) -> Seq<u8>
    decreases len,
{
    if len == 0 {
        Seq::empty()
    } else {
        seq![(n % 256) as u8] + le_bytes(n / 256, (len - 1) as nat)
    }
}

/// The number of values of `len` bytes.
pub open spec fn byte_range(len: nat) -> nat
    decreases len,
{
    if len == 0 {
        1
    } else {
        256 * byte_range((len - 1) as nat)
    }
}

/// Writing a number that fits and reading it gives the number back.
pub proof fn law_le_value_of_bytes(n: nat, len: nat)
    requires
        n < byte_range(len),
    ensures
        le_bytes(n, len).len() == len,
        le_value(le_bytes(n, len)) == n,
    decreases len,
{
    if len > 0 {
        let rest = le_bytes(n / 256, (len - 1) as nat);
        law_le_value_of_bytes(n / 256, (len - 1) as nat);
        assert(le_bytes(n, len).skip(1) =~= rest);
    }
}

/// Reading bytes and writing the number gives the bytes back.
pub proof fn law_le_bytes_of_value(s: Seq<u8>)
    ensures
        le_value(s) < byte_range(s.len()),
        le_bytes(le_value(s), s.len()) == s,
    decreases s.len(),
{
    if s.len() > 0 {
        law_le_bytes_of_value(s.skip(1));
        assert(le_bytes(le_value(s), s.len()) =~= s);
    }
}

proof fn lemma_eight_bytes()
    ensures
        byte_range(8) == 0x1_0000_0000_0000_0000,
{
    reveal_with_fuel(byte_range, 9);
}

/// Reads the eight bytes from `at` on.
pub fn read_u64(bytes: &[u8], at: usize) -> (r: u64)
    requires
        at + 8 <= bytes.len(),
    ensures
        r == le_value(bytes@.subrange(at as int, at + 8)),
{
    let ghost s = bytes@.subrange(at as int, at + 8);
    proof {
        lemma_eight_bytes();
        law_le_bytes_of_value(s);
        reveal_with_fuel(le_value, 9);
        assert(s.skip(1).skip(1) =~= s.skip(2));
        assert(s.skip(2).skip(1) =~= s.skip(3));
        assert(s.skip(3).skip(1) =~= s.skip(4));
        assert(s.skip(4).skip(1) =~= s.skip(5));
        assert(s.skip(5).skip(1) =~= s.skip(6));
        assert(s.skip(6).skip(1) =~= s.skip(7));
        assert(s.skip(7).skip(1) =~= Seq::<u8>::empty());
    }
    let high: u64 = bytes[at + 4] as u64 + 256 * (bytes[at + 5] as u64 + 256 * (bytes[at + 6] as u64
        + 256 * (bytes[at + 7] as u64)));
    bytes[at] as u64 + 256 * (bytes[at + 1] as u64 + 256 * (bytes[at + 2] as u64 + 256 * (
    bytes[at + 3] as u64 + 256 * high)))
}

/// Appends the eight bytes of a number.
pub fn push_u64(bytes: &mut Vec<u8>, n: u64)
    ensures
        final(bytes)@ == old(bytes)@ + le_bytes(n as nat, 8),
{
    let mut rest: u64 = n;
    let mut i: usize = 0;
    let ghost start = bytes@;
    assert(start + le_bytes(n as nat, 8) =~= bytes@ + le_bytes(rest as nat, 8));
    while i < 8
        invariant
            i <= 8,
            start + le_bytes(n as nat, 8) == bytes@ + le_bytes(rest as nat, (8 - i) as nat),
        decreases 8 - i,
    {
        let ghost before = bytes@;
        let low: u64 = rest % 256;
        bytes.push(low as u8);
        assert(before + le_bytes(rest as nat, (8 - i) as nat) =~= bytes@ + le_bytes(
            rest as nat / 256,
            (8 - i - 1) as nat,
        ));
        rest = rest / 256;
        i = i + 1;
    }
    assert(bytes@ + le_bytes(rest as nat, 0) =~= bytes@);
}

/// A copy of the bytes between two indices.
pub fn copy_range(bytes: &[u8], from: usize, to: usize) -> (v: Vec<u8>)
    requires
        from <= to <= bytes@.len(),
    ensures
        v@ == bytes@.subrange(from as int, to as int),
{
    let mut v: Vec<u8> = Vec::new();
    let mut i: usize = from;
    while i < to
        invariant
            from <= i <= to <= bytes@.len(),
            v@ == bytes@.subrange(from as int, i as int),
        decreases to - i,
    {
        v.push(bytes[i]);
        assert(v@ =~= bytes@.subrange(from as int, i + 1));
        i = i + 1;
    }
    v
}

/// Appends bytes.
pub fn push_bytes(v: &mut Vec<u8>, bytes: &[u8])
    ensures
        final(v)@ == old(v)@ + bytes@,
{
    let ghost start = v@;
    let mut i: usize = 0;
    while i < bytes.len()
        invariant
            i <= bytes@.len(),
            v@ == start + bytes@.take(i as int),
        decreases bytes@.len() - i,
    {
        v.push(bytes[i]);
        assert(v@ =~= start + bytes@.take(i + 1));
        i = i + 1;
    }
    assert(bytes@.take(bytes@.len() as int) =~= bytes@);
}

/// A packet behind the identity of its peripheral, as it goes over a channel
/// that several peripherals share.
pub fn frame_packet(id: &[u8], payload: &[u8]) -> (v: Vec<u8>)
    ensures
        v@ == id@ + payload@,
{
    let mut v: Vec<u8> = Vec::new();
    push_bytes(&mut v, id);
    push_bytes(&mut v, payload);
    assert(v@ =~= id@ + payload@);
    v
}

/// The payload of a framed packet: what follows the identity, cut at the
/// capacity of the receiver.
pub open spec fn payload_of(framed: Seq<u8>, id_len: nat, capacity: nat) -> Option<Seq<u8>> {
    if framed.len() < id_len {
        None
    } else if framed.len() - id_len <= capacity {
        Some(framed.skip(id_len as int))
    } else {
        Some(framed.subrange(id_len as int, (id_len + capacity) as int))
    }
}

/// The payload of a framed packet, if the packet holds an identity.
pub fn unframe_packet(framed: &[u8], id_len: usize, capacity: usize) -> (r: Option<Vec<u8>>)
    ensures
        match r {
            Some(v) => payload_of(framed@, id_len as nat, capacity as nat) == Some(v@),
            None => payload_of(framed@, id_len as nat, capacity as nat) is None,
        },
{
    if framed.len() < id_len {
        return None;
    }
    let end = if framed.len() - id_len <= capacity {
        framed.len()
    } else {
        id_len + capacity
    };
    let v = copy_range(framed, id_len, end);
    assert(framed@.skip(id_len as int) =~= framed@.subrange(id_len as int, framed@.len() as int));
    Some(v)
}

/// A framed packet gives its payload back where it fits the receiver.
pub proof fn law_framed_packet_is_unframed(id: Seq<u8>, payload: Seq<u8>, capacity: nat)
    requires
        payload.len() <= capacity,
    ensures
        payload_of(id + payload, id.len(), capacity) == Some(payload),
{
    assert((id + payload).skip(id.len() as int) =~= payload);
}

/// The bytes of a number are in order from the lowest: each holds eight bits of it.
pub proof fn law_bytes_go_up_from_the_lowest(n: nat, len: nat, i: nat)
    requires
        i < len,
    ensures
        le_bytes(n, len).len() == len,
        le_bytes(n, len)[i as int] == n / byte_range(i) % 256,
        byte_range(i + 1) == 256 * byte_range(i),
        byte_range(0) == 1,
    decreases len,
{
    if i > 0 {
        law_bytes_go_up_from_the_lowest(n / 256, (len - 1) as nat, (i - 1) as nat);
        let rest = byte_range((i - 1) as nat);
        lemma_byte_range_positive((i - 1) as nat);
        vstd::arithmetic::div_mod::lemma_div_denominator(n as int, 256, rest as int);
        assert(le_bytes(n, len)[i as int] == le_bytes(n / 256, (len - 1) as nat)[i - 1]);
    } else {
        lemma_le_len(n / 256, (len - 1) as nat);
        assert(n / 1 == n);
    }
}

proof fn lemma_byte_range_positive(len: nat)
    ensures
        byte_range(len) > 0,
    decreases len,
{
    if len > 0 {
        lemma_byte_range_positive((len - 1) as nat);
    }
}

proof fn lemma_le_len(n: nat, len: nat)
    ensures
        le_bytes(n, len).len() == len,
    decreases len,
{
    if len > 0 {
        lemma_le_len(n / 256, (len - 1) as nat);
    }
}

} // verus!
