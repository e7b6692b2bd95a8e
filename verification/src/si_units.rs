//! How the units that are known relate to one another.

use vstd::prelude::*;
use crate::text;
use crate::units;
use crate::units::Reading;

verus! {

/// A text that is one token of a unit string: it has no operator, no `^` and no
/// white space.
pub open spec fn one_token(s: Seq<char>) -> bool {
    s.len() > 0 && forall|i: int|
        0 <= i < s.len() ==> !units::operator(#[trigger] s[i]) && s[i] != '^' && !text::white_space(
            s[i],
        )
}

/// The reading of a unit that multiplies another, or divides it.
pub open spec fn times(a: Reading, b: Reading, n: int) -> Reading {
    Reading::Unit {
        exponents: units::product_with_power(a->exponents, b->exponents, n),
        power: a->power + b->power * n,
    }
}

/// A text without white space stays as it is.
proof fn lemma_stripped(s: Seq<char>)
    requires
        forall|i: int| 0 <= i < s.len() ==> !text::white_space(#[trigger] s[i]),
    ensures
        units::stripped(s) == s,
    decreases s.len(),
{
    reveal(Seq::filter);
    if s.len() > 0 {
        assert(!text::white_space(s[s.len() - 1]));
        lemma_stripped(s.drop_last());
        assert(s.drop_last().push(s.last()) =~= s);
    } else {
        assert(units::stripped(s) =~= s);
    }
}

/// A text without an operator is one factor.
proof fn lemma_one_factor(s: Seq<char>, i: int)
    requires
        0 <= i <= s.len(),
        forall|k: int| i <= k < s.len() ==> !units::operator(#[trigger] s[k]),
    ensures
        units::factor_end(s, i) == s.len(),
    decreases s.len() - i,
{
    if i < s.len() {
        lemma_one_factor(s, i + 1);
    }
}

/// The first `^` of a text.
proof fn lemma_caret(s: Seq<char>, i: int, at: int)
    requires
        0 <= i <= at <= s.len(),
        forall|k: int| i <= k < at ==> #[trigger] s[k] != '^',
        at < s.len() ==> s[at] == '^',
    ensures
        units::caret_index(s, i) == at,
    decreases at - i,
{
    if i < at {
        lemma_caret(s, i + 1, at);
    }
}

/// One factor that is a token, behind an operator.
proof fn lemma_token(op: char, s: Seq<char>, exponents: Seq<int>, power: int)
    requires
        one_token(s),
        units::token_meaning(s) is Some,
    ensures
        ({
            let meaning = units::token_meaning(s)->0;
            let n: int = if op == '/' {
                -1
            } else {
                1
            };
            units::factors_reading(op, s, exponents, power) == if units::in_range(
                units::product_with_power(units::no_exponents(), meaning.exponents, n),
            ) && units::in_range(
                units::product_with_power(exponents, meaning.exponents, n),
            ) {
                Reading::Unit {
                    exponents: units::product_with_power(exponents, meaning.exponents, n),
                    power: power + meaning.power * n,
                }
            } else {
                Reading::OutOfRange
            }
        }),
{
    lemma_one_factor(s, 0);
    assert(s.take(s.len() as int) =~= s);
    assert(forall|k: int| 0 <= k < s.len() ==> #[trigger] s[k] != '^') by {
        assert forall|k: int| 0 <= k < s.len() implies #[trigger] s[k] != '^' by {
            assert(!units::operator(s[k]));
        }
    }
    lemma_caret(s, 0, s.len() as int);
}

/// A token on its own reads as what it means.
proof fn lemma_reading(s: Seq<char>)
    requires
        one_token(s),
        units::token_meaning(s) is Some,
        units::token_meaning(s)->0.exponents.len() == units::base_dimensions(),
        units::in_range(units::token_meaning(s)->0.exponents),
    ensures
        units::unit_reading(s) == (Reading::Unit {
            exponents: units::token_meaning(s)->0.exponents,
            power: units::token_meaning(s)->0.power,
        }),
{
    assert forall|i: int| 0 <= i < s.len() implies !text::white_space(#[trigger] s[i]) by {
        assert(!units::operator(s[i]));
    }
    lemma_stripped(s);
    lemma_token('*', s, units::no_exponents(), 0);
    let e = units::token_meaning(s)->0.exponents;
    let one = units::product_with_power(units::no_exponents(), e, 1);
    assert(one =~= e);
}

/// A unit string with one more token behind an operator.
proof fn lemma_more(a: Seq<char>, op: char, b: Seq<char>, joined: Seq<char>)
    requires
        units::operator(op),
        joined == a + seq![op] + b,
        units::unit_reading(a) is Unit,
        one_token(b),
        units::token_meaning(b) is Some,
        units::token_meaning(b)->0.exponents.len() == units::base_dimensions(),
        forall|i: int|
            0 <= i < units::base_dimensions() ==> -3 <= #[trigger] units::token_meaning(
                b,
            )->0.exponents[i] <= 3,
        forall|i: int|
            0 <= i < units::base_dimensions() ==> -9 <= #[trigger] units::unit_reading(
                a,
            )->exponents[i] <= 9,
    ensures
        units::unit_reading(joined) == times(
            units::unit_reading(a),
            units::unit_reading(b),
            if op == '/' {
                -1
            } else {
                1
            },
        ),
        units::unit_reading(joined) is Unit,
        units::unit_reading(joined)->power == units::unit_reading(a)->power + if op == '/' {
            -units::token_meaning(b)->0.power
        } else {
            units::token_meaning(b)->0.power
        },
        units::unit_reading(b) is Unit,
        units::unit_reading(b)->exponents == units::token_meaning(b)->0.exponents,
{
    let m = units::token_meaning(b)->0;
    let e = units::unit_reading(a)->exponents;
    let n: int = if op == '/' {
        -1
    } else {
        1
    };
    assert(units::in_range(m.exponents));
    lemma_reading(b);
    units::lemma_stripped_join(a, op, b);
    assert forall|i: int| 0 <= i < b.len() implies !text::white_space(#[trigger] b[i]) by {
        assert(!units::operator(b[i]));
    }
    lemma_stripped(b);
    units::lemma_factors_behind(
        '*',
        units::stripped(a),
        op,
        b,
        units::no_exponents(),
        0,
    );
    lemma_token(op, b, e, units::unit_reading(a)->power);
    let alone = units::product_with_power(units::no_exponents(), m.exponents, n);
    let all = units::product_with_power(e, m.exponents, n);
    assert forall|i: int| 0 <= i < units::base_dimensions() implies i8::MIN <= #[trigger] alone[i]
        <= i8::MAX by {
        assert(-3 <= m.exponents[i] <= 3);
    }
    assert forall|i: int| 0 <= i < units::base_dimensions() implies i8::MIN <= #[trigger] all[i]
        <= i8::MAX by {
        assert(-3 <= m.exponents[i] <= 3);
        assert(-9 <= e[i] <= 9);
    }
}

/// What the names of units hold.
proof fn lemma_names()
    ensures
        one_token("1"@),
        one_token("s"@),
        one_token("m"@),
        one_token("kg"@),
        one_token("A"@),
        one_token("K"@),
        one_token("mol"@),
        one_token("cd"@),
        one_token("rad"@),
        one_token("Hz"@),
        one_token("N"@),
        one_token("Pa"@),
        one_token("J"@),
        one_token("W"@),
        one_token("C"@),
        one_token("V"@),
        one_token("ohm"@),
        one_token("°C"@),
        one_token("degC"@),
        "1"@.len() == 1 && "1"@[0] == '1',
        "s"@.len() == 1 && "s"@[0] == 's',
        "m"@.len() == 1 && "m"@[0] == 'm',
        "kg"@.len() == 2 && "kg"@[0] == 'k',
        "A"@.len() == 1 && "A"@[0] == 'A',
        "K"@.len() == 1 && "K"@[0] == 'K',
        "mol"@.len() == 3 && "mol"@[0] == 'm',
        "cd"@.len() == 2 && "cd"@[0] == 'c',
        "rad"@.len() == 3 && "rad"@[0] == 'r',
        "Hz"@.len() == 2 && "Hz"@[0] == 'H',
        "N"@.len() == 1 && "N"@[0] == 'N',
        "Pa"@.len() == 2 && "Pa"@[0] == 'P',
        "J"@.len() == 1 && "J"@[0] == 'J',
        "W"@.len() == 1 && "W"@[0] == 'W',
        "C"@.len() == 1 && "C"@[0] == 'C',
        "V"@.len() == 1 && "V"@[0] == 'V',
        "ohm"@.len() == 3 && "ohm"@[0] == 'o',
        "°C"@.len() == 2 && "°C"@[0] == '°',
        "degC"@.len() == 4 && "degC"@[0] == 'd',
{
    reveal_strlit("1");
    reveal_strlit("s");
    reveal_strlit("m");
    reveal_strlit("kg");
    reveal_strlit("A");
    reveal_strlit("K");
    reveal_strlit("mol");
    reveal_strlit("cd");
    reveal_strlit("rad");
    reveal_strlit("Hz");
    reveal_strlit("N");
    reveal_strlit("Pa");
    reveal_strlit("J");
    reveal_strlit("W");
    reveal_strlit("C");
    reveal_strlit("V");
    reveal_strlit("ohm");
    reveal_strlit("°C");
    reveal_strlit("degC");
}

/// What the names of units mean.
proof fn lemma_meanings()
    ensures
        units::token_meaning("1"@) == Some(
            units::Meaning { exponents: seq![0int, 0, 0, 0, 0, 0, 0], power: 0 },
        ),
        units::token_meaning("s"@) == Some(
            units::Meaning { exponents: seq![0int, 0, 1, 0, 0, 0, 0], power: 0 },
        ),
        units::token_meaning("m"@) == Some(
            units::Meaning { exponents: seq![0int, 1, 0, 0, 0, 0, 0], power: 0 },
        ),
        units::token_meaning("kg"@) == Some(
            units::Meaning { exponents: seq![1int, 0, 0, 0, 0, 0, 0], power: 0 },
        ),
        units::token_meaning("A"@) == Some(
            units::Meaning { exponents: seq![0int, 0, 0, 1, 0, 0, 0], power: 0 },
        ),
        units::token_meaning("K"@) == Some(
            units::Meaning { exponents: seq![0int, 0, 0, 0, 1, 0, 0], power: 0 },
        ),
        units::token_meaning("mol"@) == Some(
            units::Meaning { exponents: seq![0int, 0, 0, 0, 0, 1, 0], power: 0 },
        ),
        units::token_meaning("cd"@) == Some(
            units::Meaning { exponents: seq![0int, 0, 0, 0, 0, 0, 1], power: 0 },
        ),
        units::token_meaning("rad"@) == Some(
            units::Meaning { exponents: seq![0int, 0, 0, 0, 0, 0, 0], power: 0 },
        ),
        units::token_meaning("Hz"@) == Some(
            units::Meaning { exponents: seq![0int, 0, -1, 0, 0, 0, 0], power: 0 },
        ),
        units::token_meaning("N"@) == Some(
            units::Meaning { exponents: seq![1int, 1, -2, 0, 0, 0, 0], power: 0 },
        ),
        units::token_meaning("Pa"@) == Some(
            units::Meaning { exponents: seq![1int, -1, -2, 0, 0, 0, 0], power: 0 },
        ),
        units::token_meaning("J"@) == Some(
            units::Meaning { exponents: seq![1int, 2, -2, 0, 0, 0, 0], power: 0 },
        ),
        units::token_meaning("W"@) == Some(
            units::Meaning { exponents: seq![1int, 2, -3, 0, 0, 0, 0], power: 0 },
        ),
        units::token_meaning("C"@) == Some(
            units::Meaning { exponents: seq![0int, 0, 1, 1, 0, 0, 0], power: 0 },
        ),
        units::token_meaning("V"@) == Some(
            units::Meaning { exponents: seq![1int, 2, -3, -1, 0, 0, 0], power: 0 },
        ),
        units::token_meaning("ohm"@) == Some(
            units::Meaning { exponents: seq![1int, 2, -3, -2, 0, 0, 0], power: 0 },
        ),
        units::token_meaning("°C"@) == Some(
            units::Meaning { exponents: seq![0int, 0, 0, 0, 1, 0, 0], power: units::CELSIUS_POWER as int },
        ),
        units::token_meaning("degC"@) == Some(
            units::Meaning { exponents: seq![0int, 0, 0, 0, 1, 0, 0], power: units::CELSIUS_POWER as int },
        ),
{
    lemma_names();
    assert(units::no_exponents() == seq![0int, 0, 0, 0, 0, 0, 0]);
}

/// The exponents of one base dimension alone.
pub open spec fn alone(dimension: int) -> Seq<int> {
    Seq::new(
        units::base_dimensions(),
        |i: int|
            if i == dimension {
                1int
            } else {
                0
            },
    )
}

/// Each base unit has its own dimension and no other, and the scale one: `kg` mass,
/// `m` length, `s` time, `A` current, `K` temperature, `mol` amount and `cd`
/// luminous intensity. `1` and `rad` have no dimension.
pub proof fn law_base_units_have_their_dimension()
    ensures
        units::unit_reading("kg"@) == (Reading::Unit { exponents: alone(0), power: 0 }),
        units::unit_reading("m"@) == (Reading::Unit { exponents: alone(1), power: 0 }),
        units::unit_reading("s"@) == (Reading::Unit { exponents: alone(2), power: 0 }),
        units::unit_reading("A"@) == (Reading::Unit { exponents: alone(3), power: 0 }),
        units::unit_reading("K"@) == (Reading::Unit { exponents: alone(4), power: 0 }),
        units::unit_reading("mol"@) == (Reading::Unit { exponents: alone(5), power: 0 }),
        units::unit_reading("cd"@) == (Reading::Unit { exponents: alone(6), power: 0 }),
        units::unit_reading("1"@) == (Reading::Unit {
            exponents: units::no_exponents(),
            power: 0,
        }),
        units::unit_reading("rad"@) == units::unit_reading("1"@),
{
    lemma_names();
    lemma_meanings();
    lemma_reading("1"@);
    lemma_reading("rad"@);
    lemma_reading("kg"@);
    assert(units::token_meaning("kg"@)->0.exponents =~= alone(0));
    lemma_reading("m"@);
    assert(units::token_meaning("m"@)->0.exponents =~= alone(1));
    lemma_reading("s"@);
    assert(units::token_meaning("s"@)->0.exponents =~= alone(2));
    lemma_reading("A"@);
    assert(units::token_meaning("A"@)->0.exponents =~= alone(3));
    lemma_reading("K"@);
    assert(units::token_meaning("K"@)->0.exponents =~= alone(4));
    lemma_reading("mol"@);
    assert(units::token_meaning("mol"@)->0.exponents =~= alone(5));
    lemma_reading("cd"@);
    assert(units::token_meaning("cd"@)->0.exponents =~= alone(6));
}

proof fn lemma_hz()
    ensures
        units::unit_reading("Hz"@) == units::unit_reading("1/s"@),
{
    lemma_names();
    lemma_meanings();
    reveal_strlit("1");
    reveal_strlit("1/s");
    reveal_strlit("s");
    lemma_reading("Hz"@);
    lemma_reading("1"@);
    assert("1/s"@ =~= "1"@ + seq!['/'] + "s"@);
    lemma_more("1"@, '/', "s"@, "1/s"@);
    assert(units::unit_reading("1/s"@)->exponents =~= seq![0int, 0, -1, 0, 0, 0, 0]);
    assert(units::unit_reading("1/s"@)->power == 0);
}

proof fn lemma_n()
    ensures
        units::unit_reading("N"@) == units::unit_reading("kg.m/s/s"@),
{
    lemma_names();
    lemma_meanings();
    reveal_strlit("kg");
    reveal_strlit("kg.m");
    reveal_strlit("kg.m/s");
    reveal_strlit("kg.m/s/s");
    reveal_strlit("m");
    reveal_strlit("s");
    lemma_reading("N"@);
    lemma_reading("kg"@);
    assert("kg.m"@ =~= "kg"@ + seq!['.'] + "m"@);
    lemma_more("kg"@, '.', "m"@, "kg.m"@);
    assert(units::unit_reading("kg.m"@)->exponents =~= seq![1int, 1, 0, 0, 0, 0, 0]);
    assert(units::unit_reading("kg.m"@)->power == 0);
    assert("kg.m/s"@ =~= "kg.m"@ + seq!['/'] + "s"@);
    lemma_more("kg.m"@, '/', "s"@, "kg.m/s"@);
    assert(units::unit_reading("kg.m/s"@)->exponents =~= seq![1int, 1, -1, 0, 0, 0, 0]);
    assert(units::unit_reading("kg.m/s"@)->power == 0);
    assert("kg.m/s/s"@ =~= "kg.m/s"@ + seq!['/'] + "s"@);
    lemma_more("kg.m/s"@, '/', "s"@, "kg.m/s/s"@);
    assert(units::unit_reading("kg.m/s/s"@)->exponents =~= seq![1int, 1, -2, 0, 0, 0, 0]);
    assert(units::unit_reading("kg.m/s/s"@)->power == 0);
}

proof fn lemma_pa()
    ensures
        units::unit_reading("Pa"@) == units::unit_reading("N/m/m"@),
{
    lemma_names();
    lemma_meanings();
    reveal_strlit("N");
    reveal_strlit("N/m");
    reveal_strlit("N/m/m");
    reveal_strlit("m");
    lemma_reading("Pa"@);
    lemma_reading("N"@);
    assert("N/m"@ =~= "N"@ + seq!['/'] + "m"@);
    lemma_more("N"@, '/', "m"@, "N/m"@);
    assert(units::unit_reading("N/m"@)->exponents =~= seq![1int, 0, -2, 0, 0, 0, 0]);
    assert(units::unit_reading("N/m"@)->power == 0);
    assert("N/m/m"@ =~= "N/m"@ + seq!['/'] + "m"@);
    lemma_more("N/m"@, '/', "m"@, "N/m/m"@);
    assert(units::unit_reading("N/m/m"@)->exponents =~= seq![1int, -1, -2, 0, 0, 0, 0]);
    assert(units::unit_reading("N/m/m"@)->power == 0);
}

proof fn lemma_j()
    ensures
        units::unit_reading("J"@) == units::unit_reading("N.m"@),
{
    lemma_names();
    lemma_meanings();
    reveal_strlit("N");
    reveal_strlit("N.m");
    reveal_strlit("m");
    lemma_reading("J"@);
    lemma_reading("N"@);
    assert("N.m"@ =~= "N"@ + seq!['.'] + "m"@);
    lemma_more("N"@, '.', "m"@, "N.m"@);
    assert(units::unit_reading("N.m"@)->exponents =~= seq![1int, 2, -2, 0, 0, 0, 0]);
    assert(units::unit_reading("N.m"@)->power == 0);
}

proof fn lemma_w()
    ensures
        units::unit_reading("W"@) == units::unit_reading("J/s"@),
{
    lemma_names();
    lemma_meanings();
    reveal_strlit("J");
    reveal_strlit("J/s");
    reveal_strlit("s");
    lemma_reading("W"@);
    lemma_reading("J"@);
    assert("J/s"@ =~= "J"@ + seq!['/'] + "s"@);
    lemma_more("J"@, '/', "s"@, "J/s"@);
    assert(units::unit_reading("J/s"@)->exponents =~= seq![1int, 2, -3, 0, 0, 0, 0]);
    assert(units::unit_reading("J/s"@)->power == 0);
}

proof fn lemma_c()
    ensures
        units::unit_reading("C"@) == units::unit_reading("A.s"@),
{
    lemma_names();
    lemma_meanings();
    reveal_strlit("A");
    reveal_strlit("A.s");
    reveal_strlit("s");
    lemma_reading("C"@);
    lemma_reading("A"@);
    assert("A.s"@ =~= "A"@ + seq!['.'] + "s"@);
    lemma_more("A"@, '.', "s"@, "A.s"@);
    assert(units::unit_reading("A.s"@)->exponents =~= seq![0int, 0, 1, 1, 0, 0, 0]);
    assert(units::unit_reading("A.s"@)->power == 0);
}

proof fn lemma_v()
    ensures
        units::unit_reading("V"@) == units::unit_reading("W/A"@),
{
    lemma_names();
    lemma_meanings();
    reveal_strlit("A");
    reveal_strlit("W");
    reveal_strlit("W/A");
    lemma_reading("V"@);
    lemma_reading("W"@);
    assert("W/A"@ =~= "W"@ + seq!['/'] + "A"@);
    lemma_more("W"@, '/', "A"@, "W/A"@);
    assert(units::unit_reading("W/A"@)->exponents =~= seq![1int, 2, -3, -1, 0, 0, 0]);
    assert(units::unit_reading("W/A"@)->power == 0);
}

proof fn lemma_ohm()
    ensures
        units::unit_reading("ohm"@) == units::unit_reading("V/A"@),
{
    lemma_names();
    lemma_meanings();
    reveal_strlit("A");
    reveal_strlit("V");
    reveal_strlit("V/A");
    lemma_reading("ohm"@);
    lemma_reading("V"@);
    assert("V/A"@ =~= "V"@ + seq!['/'] + "A"@);
    lemma_more("V"@, '/', "A"@, "V/A"@);
    assert(units::unit_reading("V/A"@)->exponents =~= seq![1int, 2, -3, -2, 0, 0, 0]);
    assert(units::unit_reading("V/A"@)->power == 0);
}

/// The derived units are what they are in the SI: a hertz is one per second, a
/// newton a kilogram metre per second squared, a pascal a newton per square metre, a
/// joule a newton metre, a watt a joule per second, a coulomb an ampere second, a
/// volt a watt per ampere, and an ohm a volt per ampere.
pub proof fn law_derived_units_relate()
    ensures
        units::unit_reading("Hz"@) == units::unit_reading("1/s"@),
        units::unit_reading("N"@) == units::unit_reading("kg.m/s/s"@),
        units::unit_reading("Pa"@) == units::unit_reading("N/m/m"@),
        units::unit_reading("J"@) == units::unit_reading("N.m"@),
        units::unit_reading("W"@) == units::unit_reading("J/s"@),
        units::unit_reading("C"@) == units::unit_reading("A.s"@),
        units::unit_reading("V"@) == units::unit_reading("W/A"@),
        units::unit_reading("ohm"@) == units::unit_reading("V/A"@),
{
    lemma_hz();
    lemma_n();
    lemma_pa();
    lemma_j();
    lemma_w();
    lemma_c();
    lemma_v();
    lemma_ohm();
}

/// Units that read the same can stand for one another as factors of any unit.
pub proof fn law_same_units_are_interchangeable(
    a: Seq<char>,
    op: char,
    b: Seq<char>,
    c: Seq<char>,
)
    requires
        op == '*' || op == '.',
        units::unit_reading(a) is Unit,
        units::unit_reading(b) is Unit,
        units::unit_reading(b) == units::unit_reading(c),
        units::unit_in_range(a + seq![op] + b),
        units::unit_in_range(a + seq![op] + c),
    ensures
        units::unit_reading(a + seq![op] + b) == units::unit_reading(a + seq![op] + c),
{
    units::law_joined_units_multiply(a, op, b);
    units::law_joined_units_multiply(a, op, c);
}

/// The base units that take a prefix, by the prefix.
pub open spec fn takes_prefix(prefix: char, base: Seq<char>) -> bool {
    match prefix {
        'n' => base == "s"@,
        'u' | 'µ' => base == "V"@ || base == "A"@ || base == "s"@ || base == "C"@,
        'm' => base == "Pa"@ || base == "Hz"@ || base == "V"@ || base == "A"@ || base == "N"@
            || base == "W"@ || base == "J"@ || base == "s"@ || base == "C"@,
        'k' => base == "Pa"@ || base == "Hz"@ || base == "V"@ || base == "A"@ || base == "N"@
            || base == "W"@ || base == "J"@ || base == "ohm"@,
        'M' => base == "Pa"@ || base == "Hz"@ || base == "N"@ || base == "W"@ || base == "J"@
            || base == "ohm"@,
        'G' => base == "Pa"@ || base == "Hz"@,
        _ => false,
    }
}

/// A prefix scales a unit by a power of ten that is the same on all units, and
/// leaves its dimension: `n` is ten to the minus nine, `u` and `µ` to the minus six,
/// `m` to the minus three, `k` to the three, `M` to the six and `G` to the nine. It
/// is allowed on some units only.
pub proof fn law_prefixes_scale_units(prefix: char, base: Seq<char>)
    requires
        units::base_unit(seq![prefix] + base) is None,
    ensures
        units::token_meaning(seq![prefix] + base) is Some <==> takes_prefix(prefix, base),
        takes_prefix(prefix, base) ==> units::base_unit(base) is Some,
        units::token_meaning(seq![prefix] + base) matches Some(m) ==> {
            &&& units::base_unit(base) matches Some(b) && m.exponents == b.exponents && b.power == 0
            &&& m.power == match prefix {
                'n' => -9int,
                'u' | 'µ' => -6,
                'm' => -3,
                'k' => 3,
                'M' => 6,
                _ => 9,
            }
        },
{
    lemma_names();
    lemma_meanings();
    let token = seq![prefix] + base;
    assert(token.skip(1) =~= base);
    assert(token[0] == prefix);
}

/// The only tokens without a prefix are the names of the base and derived units.
pub proof fn law_other_tokens_are_unknown(token: Seq<char>)
    requires
        units::base_unit(token) is Some,
    ensures
        token == "1"@ || token == "rad"@ || token == "s"@ || token == "m"@ || token == "kg"@
            || token == "A"@ || token == "K"@ || token == "mol"@ || token == "cd"@ || token
            == "Hz"@ || token == "N"@ || token == "Pa"@ || token == "J"@ || token == "W"@ || token
            == "C"@ || token == "V"@ || token == "ohm"@ || token == "°C"@ || token == "degC"@,
{
}

/// The number behind a `^` is the power of its token: the exponents and the power of
/// ten are multiplied by it, where they stay in range.
pub proof fn law_caret_raises_a_token(token: Seq<char>, n: int)
    requires
        one_token(token),
        units::token_meaning(token) is Some,
        i8::MIN <= n <= i8::MAX,
        units::in_range(
            units::product_with_power(
                units::no_exponents(),
                units::token_meaning(token)->0.exponents,
                n,
            ),
        ),
    ensures
        units::unit_reading(token + seq!['^'] + text::int_text(n)) == (Reading::Unit {
            exponents: units::product_with_power(
                units::no_exponents(),
                units::token_meaning(token)->0.exponents,
                n,
            ),
            power: units::token_meaning(token)->0.power * n,
        }),
{
    lemma_raised(token, n);
    lemma_factor_alone(
        token + seq!['^'] + text::int_text(n),
        token,
        units::token_meaning(token)->0,
        n,
    );
}

/// One factor on its own.
proof fn lemma_factor_alone(s: Seq<char>, token: Seq<char>, meaning: units::Meaning, n: int)
    requires
        s.len() > 0,
        forall|i: int|
            0 <= i < s.len() ==> !text::white_space(#[trigger] s[i]) && !units::operator(s[i]),
        units::factor_reading('*', s) == (units::Factor::Power {
            token,
            meaning,
            exponent: n,
            after: None,
        }),
        n <= i8::MAX,
        units::in_range(
            units::product_with_power(units::no_exponents(), meaning.exponents, n),
        ),
    ensures
        units::unit_reading(s) == (Reading::Unit {
            exponents: units::product_with_power(units::no_exponents(), meaning.exponents, n),
            power: meaning.power * n,
        }),
{
    lemma_stripped(s);
    lemma_one_factor(s, 0);
    assert(s.take(s.len() as int) =~= s);
}

/// The factor of a token with a power.
proof fn lemma_raised(token: Seq<char>, n: int)
    requires
        one_token(token),
        units::token_meaning(token) is Some,
        i8::MIN <= n <= i8::MAX,
    ensures
        ({
            let s = token + seq!['^'] + text::int_text(n);
            &&& forall|i: int|
                0 <= i < s.len() ==> !text::white_space(#[trigger] s[i]) && !units::operator(s[i])
            &&& units::factor_reading('*', s) == (units::Factor::Power {
                token,
                meaning: units::token_meaning(token)->0,
                exponent: n,
                after: None,
            })
        }),
{
    let number = text::int_text(n);
    let s = token + seq!['^'] + number;
    lemma_number(n);
    assert forall|i: int| 0 <= i < s.len() implies !text::white_space(#[trigger] s[i])
        && !units::operator(s[i]) by {
        if i < token.len() {
            assert(s[i] == token[i]);
            assert(!units::operator(token[i]));
        } else if i > token.len() {
            assert(s[i] == number[i - token.len() - 1]);
        }
    }
    assert forall|k: int| 0 <= k < token.len() implies #[trigger] s[k] != '^' by {
        assert(s[k] == token[k]);
        assert(!units::operator(token[k]));
    }
    lemma_caret(s, 0, token.len() as int);
    assert(s.take(token.len() as int) =~= token);
    assert(s.skip(token.len() as int + 1) =~= number);
}

/// The text of an integer reads as an exponent.
proof fn lemma_number(n: int)
    ensures
        ({
            let number = text::int_text(n);
            &&& units::digits_end(number, units::sign_len(number)) == number.len()
            &&& units::sign_len(number) < number.len()
            &&& units::exponent_value(number) == n
            &&& forall|k: int|
                0 <= k < number.len() ==> text::ascii_digit(#[trigger] number[k]) || number[k]
                    == '-'
        }),
{
    let number = text::int_text(n);
    let magnitude: nat = if n < 0 {
        (-n) as nat
    } else {
        n as nat
    };
    let digits = text::nat_text(magnitude);
    text::lemma_nat_text_value(magnitude);
    assert(text::ascii_digit(digits[0]));
    let from: int = if n < 0 {
        1
    } else {
        0
    };
    assert(number.skip(from) =~= digits);
    assert forall|k: int| from <= k < number.len() implies text::ascii_digit(
        #[trigger] number[k],
    ) by {
        assert(number[k] == digits[k - from]);
        assert(text::ascii_digit(digits[k - from]));
    }
    assert(number[0] == if n < 0 {
        '-'
    } else {
        digits[0]
    });
    assert(units::sign_len(number) == from);
    lemma_digits(number, from);
    assert(number.subrange(from, number.len() as int) =~= digits);
}

/// A text of digits has no other end than its own.
proof fn lemma_digits(s: Seq<char>, i: int)
    requires
        0 <= i <= s.len(),
        forall|k: int| i <= k < s.len() ==> text::ascii_digit(#[trigger] s[k]),
    ensures
        units::digits_end(s, i) == s.len(),
    decreases s.len() - i,
{
    if i < s.len() {
        lemma_digits(s, i + 1);
    }
}

} // verus!
