//! Fixed-width little-endian operating packets of instruments: requests with a
//! packet ID and values, and responses with metrics and values.

use vstd::prelude::*;
use crate::binary64::Real;
use crate::bytes;
use crate::bytes::{push_bytes, push_u64, read_u64};

verus! {

/// The bytes of a list of numbers.
pub open spec fn value_bytes(values: Seq<Real>) -> Seq<u8>
    decreases values.len(),
{
    if values.len() == 0 {
        Seq::empty()
    } else {
        value_bytes(values.drop_last()) + bytes::le_bytes(values.last().bits as nat, 8)
    }
}

/// The number in the eight bytes from `at` on.
pub open spec fn value_at(s: Seq<u8>, at: int) -> Real {
    Real { bits: bytes::le_value(s.subrange(at, at + 8)) as u64 }
}

/// The first `count` numbers from `at` on.
pub open spec fn values_at(s: Seq<u8>, at: int, count: nat) -> Seq<Real> {
    Seq::new(count, |i: int| value_at(s, at + 8 * i))
}

/// The bytes of a request.
pub open spec fn request_bytes(id: u64, values: Seq<Real>) -> Seq<u8> {
    bytes::le_bytes(id as nat, 8) + value_bytes(values)
}

/// The bytes of a response.
pub open spec fn response_bytes(metrics: Seq<u8>, values: Seq<Real>) -> Seq<u8> {
    metrics + value_bytes(values)
}

proof fn lemma_u64_bytes(n: u64)
    ensures
        bytes::le_bytes(n as nat, 8).len() == 8,
        bytes::le_value(bytes::le_bytes(n as nat, 8)) == n,
{
    reveal_with_fuel(bytes::byte_range, 9);
    bytes::law_le_value_of_bytes(n as nat, 8);
}

proof fn lemma_value_bytes(before: Seq<u8>, values: Seq<Real>, i: int)
    requires
        0 <= i < values.len(),
    ensures
        value_bytes(values).len() == 8 * values.len(),
        value_at(before + value_bytes(values), before.len() + 8 * i) == values[i],
    decreases values.len(),
{
    let front = values.drop_last();
    let last = bytes::le_bytes(values.last().bits as nat, 8);
    let all = before + value_bytes(values);
    lemma_u64_bytes(values.last().bits);
    lemma_value_bytes_len(front);
    if i < front.len() {
        lemma_value_bytes(before, front, i);
        let at = before.len() + 8 * i;
        assert(all.subrange(at, at + 8) =~= (before + value_bytes(front)).subrange(at, at + 8));
    } else {
        let at = before.len() + 8 * i;
        assert(all.subrange(at, at + 8) =~= last);
    }
}

proof fn lemma_value_bytes_len(values: Seq<Real>)
    ensures
        value_bytes(values).len() == 8 * values.len(),
    decreases values.len(),
{
    if values.len() > 0 {
        lemma_value_bytes_len(values.drop_last());
        lemma_u64_bytes(values.last().bits);
    }
}

/// A request gives its ID and values back, and has eight bytes for each.
pub proof fn law_request_reads_back(id: u64, values: Seq<Real>)
    ensures
        request_bytes(id, values).len() == 8 + 8 * values.len(),
        bytes::le_value(request_bytes(id, values).subrange(0, 8)) == id,
        values_at(request_bytes(id, values), 8, values.len()) == values,
{
    lemma_u64_bytes(id);
    lemma_value_bytes_len(values);
    let first = bytes::le_bytes(id as nat, 8);
    assert(request_bytes(id, values).subrange(0, 8) =~= first);
    assert forall|i: int| 0 <= i < values.len() implies value_at(
        request_bytes(id, values),
        8 + 8 * i,
    ) == #[trigger] values[i] by {
        lemma_value_bytes(first, values, i);
    }
    assert(values_at(request_bytes(id, values), 8, values.len()) =~= values);
}

/// A response gives its metrics and values back.
pub proof fn law_response_reads_back(metrics: Seq<u8>, values: Seq<Real>)
    ensures
        response_bytes(metrics, values).len() == metrics.len() + 8 * values.len(),
        response_bytes(metrics, values).take(metrics.len() as int) == metrics,
        values_at(response_bytes(metrics, values), metrics.len() as int, values.len()) == values,
{
    lemma_value_bytes_len(values);
    assert(response_bytes(metrics, values).take(metrics.len() as int) =~= metrics);
    assert forall|i: int| 0 <= i < values.len() implies value_at(
        response_bytes(metrics, values),
        metrics.len() + 8 * i,
    ) == #[trigger] values[i] by {
        lemma_value_bytes(metrics, values, i);
    }
    assert(values_at(response_bytes(metrics, values), metrics.len() as int, values.len())
        =~= values);
}

fn push_values(v: &mut Vec<u8>, values: &[Real])
    ensures
        final(v)@ == old(v)@ + value_bytes(values@),
{
    let ghost start = v@;
    let mut i: usize = 0;
    assert(values@.take(0) =~= Seq::<Real>::empty());
    assert(start + value_bytes(values@.take(0)) =~= start);
    while i < values.len()
        invariant
            i <= values@.len(),
            v@ == start + value_bytes(values@.take(i as int)),
        decreases values@.len() - i,
    {
        push_u64(v, values[i].to_bits());
        assert(values@.take(i + 1).drop_last() =~= values@.take(i as int));
        assert(v@ =~= start + value_bytes(values@.take(i + 1)));
        i = i + 1;
    }
    assert(values@.take(values@.len() as int) =~= values@);
}

/// Encodes a request.
pub fn encode_request(id: u64, values: &[Real]) -> (v: Vec<u8>)
    ensures
        v@ == request_bytes(id, values@),
{
    let mut v: Vec<u8> = Vec::new();
    push_u64(&mut v, id);
    push_values(&mut v, values);
    assert(v@ =~= request_bytes(id, values@));
    v
}

/// Encodes a response.
pub fn encode_response(metrics: &[u8], values: &[Real]) -> (v: Vec<u8>)
    ensures
        v@ == response_bytes(metrics@, values@),
{
    let mut v: Vec<u8> = Vec::new();
    push_bytes(&mut v, metrics);
    push_values(&mut v, values);
    assert(v@ =~= response_bytes(metrics@, values@));
    v
}

/// The packet ID of a request.
pub fn request_id(packet: &[u8]) -> (id: u64)
    requires
        packet.len() >= 8,
    ensures
        id == bytes::le_value(packet@.subrange(0, 8)),
{
    read_u64(packet, 0)
}

/// Decodes `count` numbers from `at` on.
pub fn decode_values(packet: &[u8], at: usize, count: usize) -> (v: Vec<Real>)
    requires
        at + 8 * count <= packet.len(),
    ensures
        v@ == values_at(packet@, at as int, count as nat),
{
    let mut v: Vec<Real> = Vec::new();
    let mut i: usize = 0;
    while i < count
        invariant
            i <= count,
            at + 8 * count <= packet.len(),
            v@ == values_at(packet@, at as int, count as nat).take(i as int),
        decreases count - i,
    {
        v.push(Real::from_bits(read_u64(packet, at + 8 * i)));
        assert(v@ =~= values_at(packet@, at as int, count as nat).take(i + 1));
        i = i + 1;
    }
    assert(values_at(packet@, at as int, count as nat).take(count as int) =~= values_at(
        packet@,
        at as int,
        count as nat,
    ));
    v
}

/// Whether any of the numbers is NaN.
pub open spec fn some_nan(values: Seq<Real>) -> bool {
    exists|i: int| 0 <= i < values.len() && (#[trigger] values[i]).nan()
}

/// Tests whether any of the numbers is NaN.
pub fn has_nan(values: &[Real]) -> (r: bool)
    ensures
        r == some_nan(values@),
{
    let mut i: usize = 0;
    while i < values.len()
        invariant
            i <= values@.len(),
            forall|k: int| 0 <= k < i ==> !(#[trigger] values@[k]).nan(),
        decreases values@.len() - i,
    {
        if values[i].is_nan() {
            return true;
        }
        i = i + 1;
    }
    false
}

/// Whether a response has its exact size and no NaN among its values.
pub open spec fn valid_response(packet: Seq<u8>, metrics_size: nat, count: nat) -> bool {
    packet.len() == metrics_size + 8 * count && !some_nan(
        values_at(packet, metrics_size as int, count),
    )
}

/// Tests whether a response has its exact size and no NaN among its values.
pub fn is_valid_response(packet: &[u8], metrics_size: usize, count: usize) -> (r: bool)
    requires
        metrics_size + 8 * count <= usize::MAX,
    ensures
        r == valid_response(packet@, metrics_size as nat, count as nat),
{
    if packet.len() != metrics_size + 8 * count {
        return false;
    }
    !has_nan(decode_values(packet, metrics_size, count).as_slice())
}

/// A response is valid exactly where it has the size of its metrics and values, and
/// none of its values is NaN.
pub proof fn law_responses_without_nan_are_valid(metrics: Seq<u8>, values: Seq<Real>, packet: Seq<u8>)
    ensures
        valid_response(response_bytes(metrics, values), metrics.len(), values.len())
            <==> forall|i: int| 0 <= i < values.len() ==> !(#[trigger] values[i]).nan(),
        packet.len() != metrics.len() + 8 * values.len() ==> !valid_response(
            packet,
            metrics.len(),
            values.len(),
        ),
{
    law_response_reads_back(metrics, values);
}

} // verus!
