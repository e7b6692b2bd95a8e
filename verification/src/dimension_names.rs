//! What the description of a dimension says of its exponents.

use vstd::prelude::*;
use crate::text;
use crate::units;
use crate::units::Dimension;

verus! {

/// Text without a character.
spec fn free_of(s: Seq<char>, c: char) -> bool {
    forall|i: int| 0 <= i < s.len() ==> #[trigger] s[i] != c
}

/// Texts joined by a character that none of them holds can be told apart.
proof fn lemma_joined_injective(a: Seq<Seq<char>>, b: Seq<Seq<char>>, c: char)
    requires
        a.len() > 0,
        b.len() > 0,
        forall|i: int| 0 <= i < a.len() ==> free_of(#[trigger] a[i], c),
        forall|i: int| 0 <= i < b.len() ==> free_of(#[trigger] b[i], c),
        text::joined(a, seq![c]) == text::joined(b, seq![c]),
    ensures
        a == b,
    decreases a.len(),
{
    let sep = seq![c];
    let s = text::joined(a, sep);
    if a.len() == 1 || b.len() == 1 {
        if a.len() > 1 {
            lemma_separator(a, c);
        }
        if b.len() > 1 {
            lemma_separator(b, c);
        }
        assert(free_of(a[0], c) && free_of(b[0], c));
        assert(a =~= b);
    } else {
        lemma_separator(a, c);
        lemma_separator(b, c);
        let front = text::joined(a.drop_last(), sep);
        let other = text::joined(b.drop_last(), sep);
        assert(free_of(a[a.len() - 1], c) && free_of(b[b.len() - 1], c));
        assert(s == front + sep + a.last());
        assert(s == other + sep + b.last());
        assert(s.len() == front.len() + 1 + a.last().len());
        assert(s.len() == other.len() + 1 + b.last().len());
        if front.len() < other.len() {
            assert(s[other.len() as int] == a.last()[other.len() - front.len() - 1]);
        }
        if other.len() < front.len() {
            assert(s[front.len() as int] == b.last()[front.len() - other.len() - 1]);
        }
        assert(s.take(front.len() as int) =~= front);
        assert(s.take(front.len() as int) =~= other);
        assert(s.skip(front.len() as int + 1) =~= a.last());
        assert(s.skip(front.len() as int + 1) =~= b.last());
        assert forall|i: int| 0 <= i < a.drop_last().len() implies free_of(
            #[trigger] a.drop_last()[i],
            c,
        ) by {
            assert(free_of(a[i], c));
        }
        assert forall|i: int| 0 <= i < b.drop_last().len() implies free_of(
            #[trigger] b.drop_last()[i],
            c,
        ) by {
            assert(free_of(b[i], c));
        }
        lemma_joined_injective(a.drop_last(), b.drop_last(), c);
        assert(a =~= a.drop_last().push(a.last()));
        assert(b =~= b.drop_last().push(b.last()));
    }
}

/// The character stands before the last of several texts.
proof fn lemma_separator(a: Seq<Seq<char>>, c: char)
    requires
        a.len() > 1,
    ensures
        text::joined(a, seq![c]) == text::joined(a.drop_last(), seq![c]) + seq![c] + a.last(),
        text::joined(a, seq![c])[text::joined(a.drop_last(), seq![c]).len() as int] == c,
{
}

/// The first two characters of joined texts are those of the first one.
proof fn lemma_joined_start(a: Seq<Seq<char>>, sep: Seq<char>)
    requires
        a.len() > 0,
        a[0].len() >= 2,
    ensures
        text::joined(a, sep).len() >= 2,
        text::joined(a, sep)[0] == a[0][0],
        text::joined(a, sep)[1] == a[0][1],
    decreases a.len(),
{
    if a.len() > 1 {
        assert(a.drop_last()[0] == a[0]);
        lemma_joined_start(a.drop_last(), sep);
    }
}

/// The texts of two integers differ.
proof fn lemma_int_text_injective(i: int, j: int)
    requires
        text::int_text(i) == text::int_text(j),
    ensures
        i == j,
{
    lemma_int_text(i);
    lemma_int_text(j);
}

/// The text of an integer has digits, and reads back.
proof fn lemma_int_text(i: int)
    ensures
        text::int_text(i).len() > 0,
        free_of(text::int_text(i), '\u{b7}'),
        text::signed_value(text::int_text(i)) == i,
{
    let n: nat = if i < 0 {
        (-i) as nat
    } else {
        i as nat
    };
    let s = text::int_text(i);
    let digits = text::nat_text(n);
    text::lemma_nat_text_value(n);
    assert(text::ascii_digit(digits[0]));
    if i < 0 {
        assert(s.skip(1) =~= digits);
    }
    assert forall|k: int| 0 <= k < s.len() implies #[trigger] s[k] != '\u{b7}' by {
        if i >= 0 {
            assert(text::ascii_digit(digits[k]));
        } else if k > 0 {
            assert(s[k] == digits[k - 1]);
            assert(text::ascii_digit(digits[k - 1]));
        }
    }
}

/// The names of the base dimensions have letters alone, and their first two
/// letters tell them apart from one another and from the name of none.
proof fn lemma_names(i: int, j: int)
    requires
        0 <= i < units::base_dimensions(),
        0 <= j < units::base_dimensions(),
    ensures
        units::dimension_name(i).len() >= 4,
        free_of(units::dimension_name(i), '\u{b7}'),
        units::dimension_name(i)[0] != 'd',
        i != j ==> units::dimension_name(i)[0] != units::dimension_name(j)[0]
            || units::dimension_name(i)[1] != units::dimension_name(j)[1],
{
    reveal_strlit("mass");
    reveal_strlit("length");
    reveal_strlit("time");
    reveal_strlit("current");
    reveal_strlit("temperature");
    reveal_strlit("amount");
    reveal_strlit("luminous");
}

/// The part of a base dimension starts with its name, and says its exponent.
proof fn lemma_part(i: int, a: int, j: int, b: int)
    requires
        0 <= i < units::base_dimensions(),
        0 <= j < units::base_dimensions(),
    ensures
        units::dimension_part(i, a).len() >= 4,
        units::dimension_part(i, a)[0] != 'd',
        free_of(units::dimension_part(i, a), '\u{b7}'),
        units::dimension_part(i, a) == units::dimension_part(j, b) ==> i == j && a == b,
{
    reveal_strlit("^");
    lemma_names(i, j);
    lemma_names(j, i);
    lemma_int_text(a);
    lemma_int_text(b);
    let s = units::dimension_part(i, a);
    let t = units::dimension_part(j, b);
    let name = units::dimension_name(i);
    let number = text::int_text(a);
    assert(s[0] == name[0] && s[1] == name[1]);
    assert(t[0] == units::dimension_name(j)[0] && t[1] == units::dimension_name(j)[1]);
    assert forall|k: int| 0 <= k < s.len() implies #[trigger] s[k] != '\u{b7}' by {
        if k < name.len() {
            assert(s[k] == name[k]);
        } else if k > name.len() {
            assert(s[k] == number[k - name.len() - 1]);
        }
    }
    if s == t && a != 1 && b != 1 {
        assert(s.skip(name.len() as int + 1) =~= number);
        assert(t.skip(name.len() as int + 1) =~= text::int_text(b));
        lemma_int_text_injective(a, b);
    }
}

/// Each part is that of one base dimension with an exponent.
proof fn lemma_parts(e: Seq<int>, n: nat, k: int)
    requires
        n <= units::base_dimensions(),
        0 <= k < units::dimension_parts(e, n).len(),
    ensures
        exists|i: int|
            0 <= i < n && e[i] != 0 && units::dimension_parts(e, n)[k]
                == #[trigger] units::dimension_part(i, e[i]),
    decreases n,
{
    let before = units::dimension_parts(e, (n - 1) as nat);
    if k < before.len() {
        lemma_parts(e, (n - 1) as nat, k);
        assert(units::dimension_parts(e, n)[k] == before[k]);
    } else {
        assert(units::dimension_parts(e, n)[k] == units::dimension_part(n - 1, e[n - 1]));
    }
}

/// There are parts exactly where there is an exponent.
proof fn lemma_parts_exist(e: Seq<int>, n: nat)
    ensures
        units::dimension_parts(e, n).len() == 0 <==> forall|i: int|
            0 <= i < n ==> #[trigger] e[i] == 0,
    decreases n,
{
    if n > 0 {
        lemma_parts_exist(e, (n - 1) as nat);
        if units::dimension_parts(e, n).len() == 0 {
            assert(e[n - 1] == 0);
        }
    }
}

/// The parts say all exponents.
proof fn lemma_parts_injective(e: Seq<int>, f: Seq<int>, n: nat)
    requires
        n <= units::base_dimensions(),
        units::dimension_parts(e, n) == units::dimension_parts(f, n),
    ensures
        forall|i: int| 0 <= i < n ==> #[trigger] e[i] == f[i],
    decreases n,
{
    if n > 0 {
        let parts = units::dimension_parts(e, n);
        let rest_e = units::dimension_parts(e, (n - 1) as nat);
        let rest_f = units::dimension_parts(f, (n - 1) as nat);
        if e[n - 1] != 0 && f[n - 1] != 0 {
            lemma_part(n - 1, e[n - 1], n - 1, f[n - 1]);
            assert(parts.last() == units::dimension_part(n - 1, e[n - 1]));
            assert(parts.last() == units::dimension_part(n - 1, f[n - 1]));
            assert(parts.drop_last() =~= rest_e);
            assert(parts.drop_last() =~= rest_f);
        } else if e[n - 1] != 0 {
            lemma_parts(f, (n - 1) as nat, parts.len() - 1);
            let i = choose|i: int|
                0 <= i < n - 1 && f[i] != 0 && rest_f[parts.len() - 1]
                    == #[trigger] units::dimension_part(i, f[i]);
            lemma_part(n - 1, e[n - 1], i, f[i]);
        } else if f[n - 1] != 0 {
            lemma_parts(e, (n - 1) as nat, parts.len() - 1);
            let i = choose|i: int|
                0 <= i < n - 1 && e[i] != 0 && rest_e[parts.len() - 1]
                    == #[trigger] units::dimension_part(i, e[i]);
            lemma_part(n - 1, f[n - 1], i, e[i]);
        }
        lemma_parts_injective(e, f, (n - 1) as nat);
    }
}

/// The parts of a dimension that has some.
proof fn lemma_description(e: Seq<int>)
    requires
        e.len() == units::base_dimensions(),
    ensures
        ({
            let parts = units::dimension_parts(e, units::base_dimensions());
            &&& e == units::no_exponents() <==> units::description(e) == "dimensionless"@
            &&& e != units::no_exponents() ==> parts.len() > 0
            &&& forall|k: int| 0 <= k < parts.len() ==> free_of(#[trigger] parts[k], '\u{b7}')
        }),
{
    reveal_strlit("dimensionless");
    let n = units::base_dimensions();
    let parts = units::dimension_parts(e, n);
    lemma_parts_exist(e, n);
    if parts.len() == 0 {
        assert(e =~= units::no_exponents());
    }
    assert forall|k: int| 0 <= k < parts.len() implies free_of(#[trigger] parts[k], '\u{b7}') by {
        lemma_parts(e, n, k);
        let i = choose|i: int|
            0 <= i < n && e[i] != 0 && parts[k] == #[trigger] units::dimension_part(i, e[i]);
        lemma_part(i, e[i], i, e[i]);
    }
    if e != units::no_exponents() {
        lemma_parts(e, n, 0);
        let i = choose|i: int|
            0 <= i < n && e[i] != 0 && parts[0] == #[trigger] units::dimension_part(i, e[i]);
        lemma_part(i, e[i], i, e[i]);
        lemma_joined_start(parts, "\u{b7}"@);
        assert(!(e =~= units::no_exponents()));
    }
}

/// How many of the first `n` exponents are not zero.
pub open spec fn exponents_before(e: Seq<int>, n: nat) -> nat
    decreases n,
{
    if n == 0 {
        0
    } else {
        exponents_before(e, (n - 1) as nat) + if e[n - 1] == 0 {
            0nat
        } else {
            1
        }
    }
}

/// Each base dimension with an exponent has one part in a description, in the order
/// of the base dimensions, and there are no other parts.
pub proof fn law_each_exponent_has_one_part(e: Seq<int>, i: nat, n: nat)
    requires
        i < n <= units::base_dimensions(),
    ensures
        units::dimension_parts(e, n).len() == exponents_before(e, n),
        e[i as int] != 0 ==> {
            &&& exponents_before(e, i) < exponents_before(e, n)
            &&& units::dimension_parts(e, n)[exponents_before(e, i) as int]
                == units::dimension_part(i as int, e[i as int])
        },
    decreases n,
{
    if i + 1 < n {
        law_each_exponent_has_one_part(e, i, (n - 1) as nat);
    } else {
        lemma_parts_len(e, i);
    }
}

proof fn lemma_parts_len(e: Seq<int>, n: nat)
    ensures
        units::dimension_parts(e, n).len() == exponents_before(e, n),
    decreases n,
{
    if n > 0 {
        lemma_parts_len(e, (n - 1) as nat);
    }
}

/// The descriptions of two dimensions are the same exactly where the dimensions are.
pub proof fn law_descriptions_tell_dimensions_apart(a: Dimension, b: Dimension)
    ensures
        units::description(a.exponents()) == units::description(b.exponents()) <==> a == b,
{
    let e = a.exponents();
    let f = b.exponents();
    let n = units::base_dimensions();
    units::lemma_exponents_injective(a, b);
    if units::description(e) == units::description(f) {
        lemma_description(e);
        lemma_description(f);
        if e != units::no_exponents() {
            reveal_strlit("\u{b7}");
            assert("\u{b7}"@ =~= seq!['\u{b7}']);
            assert(!(e =~= units::no_exponents()) && !(f =~= units::no_exponents()));
            lemma_joined_injective(
                units::dimension_parts(e, n),
                units::dimension_parts(f, n),
                '\u{b7}',
            );
            lemma_parts_injective(e, f, n);
            assert(e =~= f);
        }
    }
}

} // verus!
