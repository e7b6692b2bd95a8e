//! The text form of IP addresses, as far as it tells IPv6 addresses from host names.

use vstd::prelude::*;
use crate::text;
use crate::text::{chars_of, is_ascii_digit, split, substring};

verus! {

/// Hexadecimal digits in either case.
pub open spec fn hex_char(c: char) -> bool {
    '0' <= c <= '9' || 'a' <= c <= 'f' || 'A' <= c <= 'F'
}

/// A group of an IPv6 address: one to four hexadecimal digits.
pub open spec fn hex_group(s: Seq<char>) -> bool {
    1 <= s.len() <= 4 && forall|i: int| 0 <= i < s.len() ==> hex_char(#[trigger] s[i])
}

/// A number of an IPv4 address: 0 to 255 without leading zeros.
pub open spec fn octet(s: Seq<char>) -> bool {
    &&& 1 <= s.len() <= 3
    &&& forall|i: int| 0 <= i < s.len() ==> text::ascii_digit(#[trigger] s[i])
    &&& s.len() > 1 ==> s[0] != '0'
    &&& text::decimal_value(s) <= 255
}

/// An IPv4 address: four numbers with dots between them.
pub open spec fn ipv4(s: Seq<char>) -> bool {
    let parts = text::split_text(s, '.');
    parts.len() == 4 && forall|i: int| 0 <= i < 4 ==> octet(#[trigger] parts[i])
}

/// The number of 16-bit units in a list of groups, where all are groups. The
/// last one may be an IPv4 address, which counts as two.
pub open spec fn units(parts: Seq<Seq<char>>, v4: bool) -> Option<int> {
    if forall|i: int| 0 <= i < parts.len() - 1 ==> hex_group(#[trigger] parts[i]) {
        if hex_group(parts.last()) {
            Some(parts.len() as int)
        } else if v4 && ipv4(parts.last()) {
            Some(parts.len() as int + 1)
        } else {
            None
        }
    } else {
        None
    }
}

/// The number of units on one side of a `::`.
pub open spec fn side_units(s: Seq<char>, v4: bool) -> Option<int> {
    if s.len() == 0 {
        Some(0)
    } else {
        units(text::split_text(s, ':'), v4)
    }
}

/// Whether the `::` at `i` stands for the zeros of an IPv6 address.
pub open spec fn compressed_at(s: Seq<char>, i: int) -> bool {
    &&& 0 <= i
    &&& i + 2 <= s.len()
    &&& s[i] == ':'
    &&& s[i + 1] == ':'
    &&& side_units(s.take(i), false) is Some
    &&& side_units(s.skip(i + 2), true) is Some
    &&& side_units(s.take(i), false)->0 + side_units(s.skip(i + 2), true)->0 <= 7
}

/// An IPv6 address: eight units with colons between them, or fewer around a
/// single `::`.
pub open spec fn ipv6(s: Seq<char>) -> bool {
    units(text::split_text(s, ':'), true) == Some(8int) || exists|i: int| #[trigger] compressed_at(s, i)
}

fn is_hex_group(s: &[char]) -> (r: bool)
    ensures
        r == hex_group(s@),
{
    if s.len() < 1 || s.len() > 4 {
        return false;
    }
    let mut i: usize = 0;
    while i < s.len()
        invariant
            i <= s@.len() <= 4,
            forall|k: int| 0 <= k < i ==> hex_char(#[trigger] s@[k]),
        decreases s@.len() - i,
    {
        let c = s[i];
        if !(('0' <= c && c <= '9') || ('a' <= c && c <= 'f') || ('A' <= c && c <= 'F')) {
            assert(!hex_char(s@[i as int]));
            return false;
        }
        i = i + 1;
    }
    true
}

fn is_octet(s: &[char]) -> (r: bool)
    ensures
        r == octet(s@),
{
    if s.len() < 1 || s.len() > 3 {
        return false;
    }
    let mut value: u32 = 0;
    let mut i: usize = 0;
    assert(s@.take(0) =~= Seq::<char>::empty());
    while i < s.len()
        invariant
            i <= s@.len() <= 3,
            forall|k: int| 0 <= k < i ==> text::ascii_digit(#[trigger] s@[k]),
            value == text::decimal_value(s@.take(i as int)),
            i == 0 ==> value == 0,
            i == 1 ==> value <= 9,
            i == 2 ==> value <= 99,
        decreases s@.len() - i,
    {
        if !is_ascii_digit(s[i]) {
            assert(!text::ascii_digit(s@[i as int]));
            return false;
        }
        assert(s@.take(i + 1).drop_last() =~= s@.take(i as int));
        value = value * 10 + (s[i] as u32 - '0' as u32);
        i = i + 1;
    }
    assert(s@.take(s@.len() as int) =~= s@);
    !(s.len() > 1 && s[0] == '0') && value <= 255
}

fn is_ipv4(s: &str) -> (r: bool)
    ensures
        r == ipv4(s@),
{
    let parts = split(s, '.');
    let ghost view = text::split_text(s@, '.');
    assert(text::texts(parts@).len() == parts@.len());
    if parts.len() != 4 {
        return false;
    }
    let mut i: usize = 0;
    while i < 4
        invariant
            i <= 4,
            parts@.len() == 4,
            view == text::texts(parts@),
            view == text::split_text(s@, '.'),
            view.len() == 4,
            forall|k: int| 0 <= k < i ==> octet(#[trigger] view[k]),
        decreases 4 - i,
    {
        assert(view[i as int] == parts@[i as int]@);
        if !is_octet(chars_of(parts[i].as_str()).as_slice()) {
            assert(!octet(view[i as int]));
            return false;
        }
        i = i + 1;
    }
    true
}

fn count_units(parts: &[String], v4: bool) -> (r: Option<u128>)
    requires
        parts@.len() > 0,
    ensures
        match r {
            Some(n) => units(text::texts(parts@), v4) == Some(n as int),
            None => units(text::texts(parts@), v4) is None,
        },
{
    let ghost view = text::texts(parts@);
    let n: usize = parts.len();
    let mut i: usize = 0;
    while i < n - 1
        invariant
            i <= n - 1,
            n == parts@.len(),
            n > 0,
            view == text::texts(parts@),
            forall|k: int| 0 <= k < i ==> hex_group(#[trigger] view[k]),
        decreases n - i,
    {
        assert(view[i as int] == parts@[i as int]@);
        if !is_hex_group(chars_of(parts[i].as_str()).as_slice()) {
            assert(!hex_group(view[i as int]));
            return None;
        }
        i = i + 1;
    }
    assert(view.last() == parts@[n - 1]@);
    if is_hex_group(chars_of(parts[n - 1].as_str()).as_slice()) {
        Some(n as u128)
    } else if v4 && is_ipv4(parts[n - 1].as_str()) {
        Some(n as u128 + 1)
    } else {
        None
    }
}

fn count_side(s: &str, v4: bool) -> (r: Option<u128>)
    ensures
        match r {
            Some(n) => side_units(s@, v4) == Some(n as int),
            None => side_units(s@, v4) is None,
        },
{
    if s.is_empty() {
        return Some(0);
    }
    let parts = split(s, ':');
    count_units(parts.as_slice(), v4)
}

/// Tests for an IPv6 address.
pub fn is_ipv6(s: &str) -> (r: bool)
    ensures
        r == ipv6(s@),
{
    let parts = split(s, ':');
    if let Some(n) = count_units(parts.as_slice(), true) {
        if n == 8 {
            return true;
        }
    }
    let chars = chars_of(s);
    let mut i: usize = 0;
    while i < chars.len()
        invariant
            chars@ == s@,
            i <= chars@.len(),
            forall|k: int| 0 <= k < i ==> !#[trigger] compressed_at(s@, k),
        decreases chars@.len() - i,
    {
        if i + 1 < chars.len() && chars[i] == ':' && chars[i + 1] == ':' {
            let head = substring(chars.as_slice(), 0, i);
            let tail = substring(chars.as_slice(), i + 2, chars.len());
            assert(head@ =~= s@.take(i as int));
            assert(tail@ =~= s@.skip(i + 2));
            if let Some(a) = count_side(head.as_str(), false) {
                if let Some(b) = count_side(tail.as_str(), true) {
                    if a <= 7 && b <= 7 - a {
                        assert(compressed_at(s@, i as int));
                        return true;
                    }
                }
            }
            proof {
                lemma_side_units(s@.take(i as int), false);
                lemma_side_units(s@.skip(i + 2), true);
            }
            assert(!compressed_at(s@, i as int));
        }
        i = i + 1;
    }
    assert forall|k: int| !#[trigger] compressed_at(s@, k) by {
        if compressed_at(s@, k) {
            assert(k < chars@.len());
        }
    }
    false
}

proof fn lemma_side_units(s: Seq<char>, v4: bool)
    ensures
        side_units(s, v4) matches Some(n) ==> n >= 0,
{
}

/// The decimal text of a number is a number of an IPv4 address exactly where it is at
/// most 255.
pub proof fn law_octets_are_single_bytes(n: nat)
    ensures
        octet(text::nat_text(n)) <==> n <= 255,
{
    text::lemma_nat_text_value(n);
    if n <= 255 {
        reveal_with_fuel(text::nat_text, 3);
        assert(text::nat_text(n).len() <= 3);
        if n >= 100 {
            assert(text::nat_text(n)[0] == text::digit_char(n / 10 / 10));
        } else if n >= 10 {
            assert(text::nat_text(n)[0] == text::digit_char(n / 10));
        }
    }
}

/// Four such texts with dots between them are an IPv4 address.
pub proof fn law_four_bytes_are_an_ipv4_address(a: u8, b: u8, c: u8, d: u8)
    ensures
        ipv4(
            text::nat_text(a as nat) + seq!['.'] + text::nat_text(b as nat) + seq!['.']
                + text::nat_text(c as nat) + seq!['.'] + text::nat_text(d as nat),
        ),
{
    let w = text::nat_text(a as nat);
    let x = text::nat_text(b as nat);
    let y = text::nat_text(c as nat);
    let z = text::nat_text(d as nat);
    lemma_no_dot(a as nat);
    lemma_no_dot(b as nat);
    lemma_no_dot(c as nat);
    lemma_no_dot(d as nat);
    text::lemma_split_one(w, '.');
    text::lemma_split_push(w, '.', x);
    text::lemma_split_push(w + seq!['.'] + x, '.', y);
    text::lemma_split_push(w + seq!['.'] + x + seq!['.'] + y, '.', z);
    law_octets_are_single_bytes(a as nat);
    law_octets_are_single_bytes(b as nat);
    law_octets_are_single_bytes(c as nat);
    law_octets_are_single_bytes(d as nat);
}

proof fn lemma_no_dot(n: nat)
    ensures
        forall|k: int| 0 <= k < text::nat_text(n).len() ==> #[trigger] text::nat_text(n)[k] != '.',
{
    text::lemma_nat_text_value(n);
    assert forall|k: int| 0 <= k < text::nat_text(n).len() implies #[trigger] text::nat_text(n)[k]
        != '.' by {
        assert(text::ascii_digit(text::nat_text(n)[k]));
    }
}

/// Groups of hexadecimal digits with colons between them are an IPv6 address where
/// there are eight, and round a double colon where there are at most seven.
pub proof fn law_groups_make_an_ipv6_address(front: Seq<char>, back: Seq<char>)
    ensures
        ({
            let a = text::split_text(front, ':');
            let b = text::split_text(back, ':');
            let groups = |parts: Seq<Seq<char>>|
                forall|i: int| 0 <= i < parts.len() ==> hex_group(#[trigger] parts[i]);
            &&& groups(a) && a.len() == 8 ==> ipv6(front)
            &&& groups(a) && groups(b) && a.len() + b.len() <= 7 ==> ipv6(
                front + seq![':', ':'] + back,
            )
            &&& groups(b) && b.len() <= 7 ==> ipv6(seq![':', ':'] + back)
            &&& groups(a) && a.len() <= 7 ==> ipv6(front + seq![':', ':'])
            &&& ipv6(seq![':', ':'])
        }),
{
    text::lemma_split_len(front, ':');
    text::lemma_split_len(back, ':');
    let none = Seq::<char>::empty();
    lemma_compressed(front, back);
    lemma_compressed(none, back);
    lemma_compressed(front, none);
    lemma_compressed(none, none);
    assert(none + seq![':', ':'] + back =~= seq![':', ':'] + back);
    assert(front + seq![':', ':'] + none =~= front + seq![':', ':']);
    assert(none + seq![':', ':'] + none =~= seq![':', ':']);
}

proof fn lemma_compressed(front: Seq<char>, back: Seq<char>)
    ensures
        ({
            let a = side_units(front, false);
            let b = side_units(back, true);
            a is Some && b is Some && a->0 + b->0 <= 7 ==> ipv6(front + seq![':', ':'] + back)
        }),
{
    let s = front + seq![':', ':'] + back;
    let i = front.len() as int;
    assert(s.take(i) =~= front);
    assert(s.skip(i + 2) =~= back);
    if side_units(front, false) is Some && side_units(back, true) is Some && side_units(
        front,
        false,
    )->0 + side_units(back, true)->0 <= 7 {
        assert(compressed_at(s, i));
    }
}

} // verus!
