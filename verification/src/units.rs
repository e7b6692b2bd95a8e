//! UCUM-subset unit parser and dimensional comparison.
//!
//! ```text
//! unit       := factor ( ('*' | '.' | '/') factor )*
//! factor     := base_unit ( '^' integer )?
//! base_unit  := letter+ | '1'    // dimensionless = "1"
//! ```
//!
//! White space is ignored. The recognized base units and SI prefixes are the
//! two tables `base_unit` and `prefix_power`.

use vstd::prelude::*;
use crate::text;
use crate::text::{
    chars_of, is_ascii_digit, is_white_space, join, push_int, quoted, quoted_char, same_text, string_of,
};

verus! {

/// Dimensional vector in SI base units: the integer exponent of each base
/// dimension in the unit's expansion.
#[derive(Debug, Clone, Copy, PartialEq, Eq, Structural)]
pub struct Dimension {
    pub mass: i8,
    pub length: i8,
    pub time: i8,
    pub current: i8,
    pub temperature: i8,
    pub amount: i8,
    pub luminous: i8,
}

/// Number of base dimensions.
pub open spec fn base_dimensions() -> nat {
    7
}

/// The exponents of a dimension with nothing in it.
pub open spec fn no_exponents() -> Seq<int> {
    seq![0, 0, 0, 0, 0, 0, 0]
}

/// The exponents of a product of `a` with the `n`-th power of `b`.
pub open spec fn product_with_power(a: Seq<int>, b: Seq<int>, n: int) -> Seq<int> {
    Seq::new(base_dimensions(), |i: int| a[i] + b[i] * n)
}

/// Whether every exponent is in the range that a `Dimension` holds.
pub open spec fn in_range(e: Seq<int>) -> bool {
    forall|i: int| 0 <= i < base_dimensions() ==> i8::MIN <= #[trigger] e[i] <= i8::MAX
}

/// The names of the base dimensions, in the order of the exponents.
pub open spec fn dimension_name(i: int) -> Seq<char> {
    if i == 0 {
        "mass"@
    } else if i == 1 {
        "length"@
    } else if i == 2 {
        "time"@
    } else if i == 3 {
        "current"@
    } else if i == 4 {
        "temperature"@
    } else if i == 5 {
        "amount"@
    } else {
        "luminous"@
    }
}

/// How one base dimension with a nonzero exponent is written.
pub open spec fn dimension_part(i: int, exponent: int) -> Seq<char> {
    if exponent == 1 {
        dimension_name(i)
    } else {
        dimension_name(i) + "^"@ + text::int_text(exponent)
    }
}

/// The parts of the first `n` base dimensions, those with a zero exponent left out.
pub open spec fn dimension_parts(e: Seq<int>, n: nat) -> Seq<Seq<char>>
    decreases n,
{
    if n == 0 {
        Seq::empty()
    } else {
        let before = dimension_parts(e, (n - 1) as nat);
        if e[n - 1] == 0 {
            before
        } else {
            before.push(dimension_part(n - 1, e[n - 1]))
        }
    }
}

/// A short human-readable summary of the exponents, such as `temperature` or
/// `mass·length·time^-2`.
pub open spec fn description(e: Seq<int>) -> Seq<char> {
    if e =~= no_exponents() {
        "dimensionless"@
    } else {
        text::joined(dimension_parts(e, base_dimensions()), "·"@)
    }
}

impl Dimension {
    /// The exponents in a fixed order.
    pub open spec fn exponents(self) -> Seq<int> {
        seq![
            self.mass as int,
            self.length as int,
            self.time as int,
            self.current as int,
            self.temperature as int,
            self.amount as int,
            self.luminous as int,
        ]
    }

    /// The dimension with the given exponents.
    pub fn new(
        mass: i8,
        length: i8,
        time: i8,
        current: i8,
        temperature: i8,
        amount: i8,
        luminous: i8,
    ) -> (d: Self)
        ensures
            d == (Dimension { mass, length, time, current, temperature, amount, luminous }),
            d.exponents() == seq![
                mass as int,
                length as int,
                time as int,
                current as int,
                temperature as int,
                amount as int,
                luminous as int,
            ],
    {
        Dimension { mass, length, time, current, temperature, amount, luminous }
    }

    /// Multiplies two dimensions: adds their exponents component-wise.
    pub fn mul(self, other: Self) -> (d: Self)
        requires
            in_range(product_with_power(self.exponents(), other.exponents(), 1)),
        ensures
            d.exponents() == product_with_power(self.exponents(), other.exponents(), 1),
    {
        proof {
            let e = product_with_power(self.exponents(), other.exponents(), 1);
            assert(i8::MIN <= e[0] <= i8::MAX);
            assert(i8::MIN <= e[1] <= i8::MAX);
            assert(i8::MIN <= e[2] <= i8::MAX);
            assert(i8::MIN <= e[3] <= i8::MAX);
            assert(i8::MIN <= e[4] <= i8::MAX);
            assert(i8::MIN <= e[5] <= i8::MAX);
            assert(i8::MIN <= e[6] <= i8::MAX);
        }
        let d = Dimension {
            mass: self.mass + other.mass,
            length: self.length + other.length,
            time: self.time + other.time,
            current: self.current + other.current,
            temperature: self.temperature + other.temperature,
            amount: self.amount + other.amount,
            luminous: self.luminous + other.luminous,
        };
        assert(d.exponents() =~= product_with_power(self.exponents(), other.exponents(), 1));
        d
    }

    /// Raises a dimension to an integer power: multiplies each exponent.
    pub fn pow(self, exp: i8) -> (d: Self)
        requires
            in_range(product_with_power(no_exponents(), self.exponents(), exp as int)),
        ensures
            d.exponents() == product_with_power(no_exponents(), self.exponents(), exp as int),
    {
        proof {
            let e = product_with_power(no_exponents(), self.exponents(), exp as int);
            assert(i8::MIN <= e[0] <= i8::MAX);
            assert(i8::MIN <= e[1] <= i8::MAX);
            assert(i8::MIN <= e[2] <= i8::MAX);
            assert(i8::MIN <= e[3] <= i8::MAX);
            assert(i8::MIN <= e[4] <= i8::MAX);
            assert(i8::MIN <= e[5] <= i8::MAX);
            assert(i8::MIN <= e[6] <= i8::MAX);
        }
        let d = Dimension {
            mass: self.mass * exp,
            length: self.length * exp,
            time: self.time * exp,
            current: self.current * exp,
            temperature: self.temperature * exp,
            amount: self.amount * exp,
            luminous: self.luminous * exp,
        };
        assert(d.exponents() =~= product_with_power(no_exponents(), self.exponents(), exp as int));
        d
    }

    /// Renders a short human-readable summary like `temperature` or
    /// `mass·length·time^-2`.
    pub fn describe(&self) -> (s: String)
        ensures
            s@ == description(self.exponents()),
    {
        let ghost e = self.exponents();
        let mut parts: Vec<String> = Vec::new();
        assert(text::texts(parts@) =~= dimension_parts(e, 0));
        push_part(&mut parts, Ghost(e), Ghost(0), self.mass, "mass");
        push_part(&mut parts, Ghost(e), Ghost(1), self.length, "length");
        push_part(&mut parts, Ghost(e), Ghost(2), self.time, "time");
        push_part(&mut parts, Ghost(e), Ghost(3), self.current, "current");
        push_part(&mut parts, Ghost(e), Ghost(4), self.temperature, "temperature");
        push_part(&mut parts, Ghost(e), Ghost(5), self.amount, "amount");
        push_part(&mut parts, Ghost(e), Ghost(6), self.luminous, "luminous");
        let nothing = self.mass == 0 && self.length == 0 && self.time == 0 && self.current == 0
            && self.temperature == 0 && self.amount == 0 && self.luminous == 0;
        proof {
            if e =~= no_exponents() {
                assert(e[0] == 0 && e[1] == 0 && e[2] == 0 && e[3] == 0 && e[4] == 0 && e[5] == 0
                    && e[6] == 0);
            }
            assert(nothing <==> e =~= no_exponents());
        }
        if nothing {
            "dimensionless".to_owned()
        } else {
            join(parts.as_slice(), "·")
        }
    }
}

/// Appends the part of base dimension `i` where its exponent is not zero.
fn push_part(parts: &mut Vec<String>, Ghost(e): Ghost<Seq<int>>, Ghost(i): Ghost<nat>, exp: i8, name: &str)
    requires
        i < base_dimensions(),
        e[i as int] == exp,
        name@ == dimension_name(i as int),
        text::texts(old(parts)@) == dimension_parts(e, i),
    ensures
        text::texts(final(parts)@) == dimension_parts(e, i + 1),
{
    if exp != 0 {
        let mut part = name.to_owned();
        if exp != 1 {
            part.push_str("^");
            push_int(&mut part, exp as i64);
        }
        assert(part@ == dimension_part(i as int, exp as int));
        parts.push(part);
        assert(text::texts(parts@) =~= dimension_parts(e, i + 1));
    }
}

impl Default for Dimension {
    fn default() -> (d: Self)
        ensures
            d.exponents() == no_exponents(),
    {
        Dimension::new(0, 0, 0, 0, 0, 0, 0)
    }
}

/// A parsed unit string: its dimensional vector plus its scale relative to the
/// SI base for that dimension. Every scale of the unit tables is a power of
/// ten, and `scale_power` is the power: `kPa` has `scale_power` 3, which is a
/// scale of 1000. The power is exact, so that scales compare without rounding,
/// however many factors a unit has.
///
/// Temperature scales with offsets cannot be represented by a scale. `°C` and
/// `degC` carry the marker power `CELSIUS_POWER`, which differs from that of
/// `K`, so `units_equal` reports them as unequal to it.
#[derive(Debug, Clone, Copy, PartialEq, Eq, Structural)]
pub struct ParsedUnit {
    pub dim: Dimension,
    pub scale_power: i128,
}

/// Error returned by `parse_unit` when the input string isn't recognized.
/// Always echoes the offending string verbatim.
#[derive(Debug, Clone, PartialEq, Eq)]
pub struct ParseError {
    pub input: String,
    pub reason: String,
}

impl ParseError {
    /// The human-readable error.
    pub fn message(&self) -> (s: String)
        ensures
            s@ == "could not parse unit string "@ + text::debug_text(self.input@) + ": "@
                + self.reason@,
    {
        let mut s = "could not parse unit string ".to_owned();
        s.push_str(quoted(self.input.as_str()).as_str());
        s.push_str(": ");
        s.push_str(self.reason.as_str());
        s
    }
}

/// Marker power of ten for the Celsius aliases.
pub const CELSIUS_POWER: i8 = 9;

/// What a token stands for: exponents and a power of ten.
pub ghost struct Meaning {
    pub exponents: Seq<int>,
    pub power: int,
}

/// A meaning whose scale is one.
pub open spec fn plain(exponents: Seq<int>) -> Option<Meaning> {
    Some(Meaning { exponents, power: 0 })
}

/// The base units by name.
pub open spec fn base_unit(name: Seq<char>) -> Option<Meaning> {
    if name == "1"@ || name == "rad"@ {
        plain(no_exponents())
    } else if name == "s"@ {
        plain(seq![0, 0, 1, 0, 0, 0, 0])
    } else if name == "m"@ {
        plain(seq![0, 1, 0, 0, 0, 0, 0])
    } else if name == "kg"@ {
        plain(seq![1, 0, 0, 0, 0, 0, 0])
    } else if name == "A"@ {
        plain(seq![0, 0, 0, 1, 0, 0, 0])
    } else if name == "K"@ {
        plain(seq![0, 0, 0, 0, 1, 0, 0])
    } else if name == "mol"@ {
        plain(seq![0, 0, 0, 0, 0, 1, 0])
    } else if name == "cd"@ {
        plain(seq![0, 0, 0, 0, 0, 0, 1])
    } else if name == "Hz"@ {
        plain(seq![0, 0, -1, 0, 0, 0, 0])
    } else if name == "N"@ {
        plain(seq![1, 1, -2, 0, 0, 0, 0])
    } else if name == "Pa"@ {
        plain(seq![1, -1, -2, 0, 0, 0, 0])
    } else if name == "J"@ {
        plain(seq![1, 2, -2, 0, 0, 0, 0])
    } else if name == "W"@ {
        plain(seq![1, 2, -3, 0, 0, 0, 0])
    } else if name == "C"@ {
        plain(seq![0, 0, 1, 1, 0, 0, 0])
    } else if name == "V"@ {
        plain(seq![1, 2, -3, -1, 0, 0, 0])
    } else if name == "ohm"@ {
        plain(seq![1, 2, -3, -2, 0, 0, 0])
    } else if name == "°C"@ || name == "degC"@ {
        Some(Meaning { exponents: seq![0, 0, 0, 0, 1, 0, 0], power: CELSIUS_POWER as int })
    } else {
        None
    }
}

/// The power of ten of an SI prefix on a base unit, where the prefix is allowed.
/// Temperature units, `m`, `mol`, `cd`, `rad`, `kg` and `1` take none.
pub open spec fn prefix_power(prefix: char, base: Seq<char>) -> Option<int> {
    if base == "Pa"@ || base == "Hz"@ {
        match prefix {
            'm' => Some(-3),
            'k' => Some(3),
            'M' => Some(6),
            'G' => Some(9),
            _ => None,
        }
    } else if base == "V"@ || base == "A"@ {
        match prefix {
            'm' => Some(-3),
            'u' => Some(-6),
            'µ' => Some(-6),
            'k' => Some(3),
            _ => None,
        }
    } else if base == "N"@ || base == "W"@ || base == "J"@ {
        match prefix {
            'm' => Some(-3),
            'k' => Some(3),
            'M' => Some(6),
            _ => None,
        }
    } else if base == "s"@ {
        match prefix {
            'm' => Some(-3),
            'u' => Some(-6),
            'µ' => Some(-6),
            'n' => Some(-9),
            _ => None,
        }
    } else if base == "ohm"@ {
        match prefix {
            'k' => Some(3),
            'M' => Some(6),
            _ => None,
        }
    } else if base == "C"@ {
        match prefix {
            'm' => Some(-3),
            'u' => Some(-6),
            'µ' => Some(-6),
            _ => None,
        }
    } else {
        None
    }
}

/// What a token means: a base unit, or an allowed prefix on one.
pub open spec fn token_meaning(token: Seq<char>) -> Option<Meaning> {
    if base_unit(token) is Some {
        base_unit(token)
    } else if token.len() > 0 && prefix_power(token[0], token.skip(1)) is Some {
        Some(
            Meaning {
                exponents: base_unit(token.skip(1))->0.exponents,
                power: prefix_power(token[0], token.skip(1))->0,
            },
        )
    } else {
        None
    }
}

/// The characters that separate factors.
pub open spec fn operator(c: char) -> bool {
    c == '*' || c == '.' || c == '/'
}

/// The index of the first operator at or after `i`, or the length.
pub open spec fn factor_end(s: Seq<char>, i: int) -> int
    decreases s.len() - i,
{
    if i < 0 || i >= s.len() {
        s.len() as int
    } else if operator(s[i]) {
        i
    } else {
        factor_end(s, i + 1)
    }
}

/// The index of the first `^` at or after `i`, or the length.
pub open spec fn caret_index(s: Seq<char>, i: int) -> int
    decreases s.len() - i,
{
    if i < 0 || i >= s.len() {
        s.len() as int
    } else if s[i] == '^' {
        i
    } else {
        caret_index(s, i + 1)
    }
}

/// The index of the first character at or after `i` that is no digit, or the length.
pub open spec fn digits_end(s: Seq<char>, i: int) -> int
    decreases s.len() - i,
{
    if i < 0 || i >= s.len() {
        s.len() as int
    } else if !text::ascii_digit(s[i]) {
        i
    } else {
        digits_end(s, i + 1)
    }
}

/// How one factor, which holds no operator, reads after operator `op`.
pub ghost enum Factor {
    /// The factor is malformed or names no unit.
    Bad { reason: Seq<char> },
    /// A token raised to a power. `after` is a character left behind the exponent.
    Power { token: Seq<char>, meaning: Meaning, exponent: int, after: Option<char> },
}

/// Number of sign characters at the start of an exponent.
pub open spec fn sign_len(s: Seq<char>) -> int {
    if s.len() > 0 && (s[0] == '-' || s[0] == '+') {
        1
    } else {
        0
    }
}

/// The value of an exponent: an optional sign, then digits.
pub open spec fn exponent_value(s: Seq<char>) -> int {
    let digits = text::decimal_value(s.subrange(sign_len(s), digits_end(s, sign_len(s))));
    if s.len() > 0 && s[0] == '-' {
        -digits
    } else {
        digits
    }
}

/// A token of a factor, raised to `value` or to `-value` behind a `/`.
pub open spec fn powered(op: char, token: Seq<char>, value: int, after: Option<char>) -> Factor {
    match token_meaning(token) {
        None => Factor::Bad { reason: "unknown unit token "@ + text::debug_text(token) },
        Some(meaning) => Factor::Power {
            token,
            meaning,
            exponent: if op == '/' {
                -value
            } else {
                value
            },
            after,
        },
    }
}

/// Reads one factor: a token, then optionally `^` and an integer.
pub open spec fn factor_reading(op: char, f: Seq<char>) -> Factor {
    let caret = caret_index(f, 0);
    let token = f.take(caret);
    let rest = f.skip(caret + 1);
    let end = digits_end(rest, sign_len(rest));
    if token.len() == 0 {
        Factor::Bad { reason: "expected a unit token after operator '"@ + seq![op] + "'"@ }
    } else if caret == f.len() {
        powered(op, token, 1, None)
    } else if end == sign_len(rest) {
        Factor::Bad {
            reason: "expected integer exponent after '^' in token "@ + text::debug_text(token),
        }
    } else if !(i8::MIN <= exponent_value(rest) <= i8::MAX) {
        Factor::Bad {
            reason: "exponent "@ + text::debug_text(rest.take(end)) + " out of range for token "@
                + text::debug_text(token),
        }
    } else {
        powered(
            op,
            token,
            exponent_value(rest),
            if end < rest.len() {
                Some(rest[end])
            } else {
                None
            },
        )
    }
}

/// What a unit string reads as.
pub ghost enum Reading {
    /// The unit's exponents and power of ten.
    Unit { exponents: Seq<int>, power: int },
    /// No unit, for the given reason.
    Failed { reason: Seq<char> },
    /// An exponent leaves the range that a `Dimension` holds.
    OutOfRange,
}

/// Reads the factors of `s`, the first of them behind `op`, onto a product so far.
pub open spec fn factors_reading(op: char, s: Seq<char>, exponents: Seq<int>, power: int) -> Reading
    decreases s.len(),
{
    let end = factor_end(s, 0);
    match factor_reading(op, s.take(end)) {
        Factor::Bad { reason } => Reading::Failed { reason },
        Factor::Power { token, meaning, exponent, after } => {
            let product = product_with_power(exponents, meaning.exponents, exponent);
            if exponent > i8::MAX || !in_range(
                product_with_power(no_exponents(), meaning.exponents, exponent),
            ) || !in_range(product) {
                Reading::OutOfRange
            } else if after is Some {
                Reading::Failed {
                    reason: "unexpected character "@ + text::debug_char(after->0) + " after token "@
                        + text::debug_text(token),
                }
            } else if end < 0 || end >= s.len() {
                Reading::Unit { exponents: product, power: power + meaning.power * exponent }
            } else {
                factors_reading(
                    s[end],
                    s.skip(end + 1),
                    product,
                    power + meaning.power * exponent,
                )
            }
        },
    }
}

/// The characters that are not white space, in order.
pub open spec fn stripped(s: Seq<char>) -> Seq<char> {
    s.filter(|c: char| !text::white_space(c))
}

/// What a unit string reads as: white space is ignored, and the first factor
/// counts as multiplied.
pub open spec fn unit_reading(input: Seq<char>) -> Reading {
    if stripped(input).len() == 0 {
        Reading::Failed { reason: "empty unit string"@ }
    } else {
        factors_reading('*', stripped(input), no_exponents(), 0)
    }
}

/// Whether the exponents of a unit string stay in range from factor to factor.
pub open spec fn unit_in_range(input: Seq<char>) -> bool {
    unit_reading(input) !is OutOfRange
}

/// Whether a result is what a unit string reads as.
pub open spec fn is_reading(input: Seq<char>, r: Result<ParsedUnit, ParseError>) -> bool {
    match r {
        Ok(u) => unit_reading(input) == (Reading::Unit {
            exponents: u.dim.exponents(),
            power: u.scale_power as int,
        }),
        Err(e) => e.input@ == input && unit_reading(input) == (Reading::Failed { reason: e.reason@ }),
    }
}

/// Whether an executable table entry is the given meaning.
pub open spec fn is_meaning(found: Option<(Dimension, i8)>, meaning: Option<Meaning>) -> bool {
    match found {
        None => meaning is None,
        Some(d) => meaning == Some(Meaning { exponents: d.0.exponents(), power: d.1 as int }),
    }
}

/// Looks up a base unit by its exact name.
pub fn lookup_base(name: &str) -> (r: Option<(Dimension, i8)>)
    ensures
        is_meaning(r, base_unit(name@)),
{
    if same_text(name, "1") || same_text(name, "rad") {
        Some((Dimension::new(0, 0, 0, 0, 0, 0, 0), 0))
    } else if same_text(name, "s") {
        Some((Dimension::new(0, 0, 1, 0, 0, 0, 0), 0))
    } else if same_text(name, "m") {
        Some((Dimension::new(0, 1, 0, 0, 0, 0, 0), 0))
    } else if same_text(name, "kg") {
        Some((Dimension::new(1, 0, 0, 0, 0, 0, 0), 0))
    } else if same_text(name, "A") {
        Some((Dimension::new(0, 0, 0, 1, 0, 0, 0), 0))
    } else if same_text(name, "K") {
        Some((Dimension::new(0, 0, 0, 0, 1, 0, 0), 0))
    } else if same_text(name, "mol") {
        Some((Dimension::new(0, 0, 0, 0, 0, 1, 0), 0))
    } else if same_text(name, "cd") {
        Some((Dimension::new(0, 0, 0, 0, 0, 0, 1), 0))
    } else if same_text(name, "Hz") {
        Some((Dimension::new(0, 0, -1, 0, 0, 0, 0), 0))
    } else if same_text(name, "N") {
        Some((Dimension::new(1, 1, -2, 0, 0, 0, 0), 0))
    } else if same_text(name, "Pa") {
        Some((Dimension::new(1, -1, -2, 0, 0, 0, 0), 0))
    } else if same_text(name, "J") {
        Some((Dimension::new(1, 2, -2, 0, 0, 0, 0), 0))
    } else if same_text(name, "W") {
        Some((Dimension::new(1, 2, -3, 0, 0, 0, 0), 0))
    } else if same_text(name, "C") {
        Some((Dimension::new(0, 0, 1, 1, 0, 0, 0), 0))
    } else if same_text(name, "V") {
        Some((Dimension::new(1, 2, -3, -1, 0, 0, 0), 0))
    } else if same_text(name, "ohm") {
        Some((Dimension::new(1, 2, -3, -2, 0, 0, 0), 0))
    } else if same_text(name, "°C") || same_text(name, "degC") {
        Some((Dimension::new(0, 0, 0, 0, 1, 0, 0), CELSIUS_POWER))
    } else {
        None
    }
}

fn prefix_power_of(prefix: char, base: &str) -> (r: Option<i8>)
    ensures
        match r {
            None => prefix_power(prefix, base@) is None,
            Some(p) => prefix_power(prefix, base@) == Some(p as int),
        },
{
    if same_text(base, "Pa") || same_text(base, "Hz") {
        match prefix {
            'm' => Some(-3),
            'k' => Some(3),
            'M' => Some(6),
            'G' => Some(9),
            _ => None,
        }
    } else if same_text(base, "V") || same_text(base, "A") {
        match prefix {
            'm' => Some(-3),
            'u' => Some(-6),
            'µ' => Some(-6),
            'k' => Some(3),
            _ => None,
        }
    } else if same_text(base, "N") || same_text(base, "W") || same_text(base, "J") {
        match prefix {
            'm' => Some(-3),
            'k' => Some(3),
            'M' => Some(6),
            _ => None,
        }
    } else if same_text(base, "s") {
        match prefix {
            'm' => Some(-3),
            'u' => Some(-6),
            'µ' => Some(-6),
            'n' => Some(-9),
            _ => None,
        }
    } else if same_text(base, "ohm") {
        match prefix {
            'k' => Some(3),
            'M' => Some(6),
            _ => None,
        }
    } else if same_text(base, "C") {
        match prefix {
            'm' => Some(-3),
            'u' => Some(-6),
            'µ' => Some(-6),
            _ => None,
        }
    } else {
        None
    }
}

/// Reads a name as an allowed prefix and a base unit: the base unit's dimension
/// and the prefix's power of ten.
pub fn try_prefixed(name: &[char]) -> (r: Option<(Dimension, i8)>)
    ensures
        match r {
            None => name@.len() == 0 || prefix_power(name@[0], name@.skip(1)) is None,
            Some(d) => {
                &&& name@.len() > 0
                &&& prefix_power(name@[0], name@.skip(1)) == Some(d.1 as int)
                &&& base_unit(name@.skip(1)) is Some
                &&& base_unit(name@.skip(1))->0.exponents == d.0.exponents()
            },
        },
{
    if name.len() == 0 {
        return None;
    }
    let mut base = String::new();
    let mut i: usize = 1;
    while i < name.len()
        invariant
            1 <= i <= name.len(),
            base@ == name@.subrange(1, i as int),
        decreases name.len() - i,
    {
        base.push(name[i]);
        assert(base@ =~= name@.subrange(1, i + 1));
        i = i + 1;
    }
    assert(base@ =~= name@.skip(1));
    match prefix_power_of(name[0], base.as_str()) {
        None => None,
        Some(power) => match lookup_base(base.as_str()) {
            None => None,
            Some(found) => Some((found.0, power)),
        },
    }
}

/// Resolves a token to its dimension and power of ten: an exact base unit
/// first, then a prefixed one.
pub fn resolve_token(token: &[char], original: &str) -> (r: Result<(Dimension, i8), ParseError>)
    ensures
        match r {
            Ok(d) => is_meaning(Some(d), token_meaning(token@)),
            Err(e) => token_meaning(token@) is None && e.input@ == original@ && e.reason@
                == "unknown unit token "@ + text::debug_text(token@),
        },
{
    let name = string_of(token);
    if let Some(found) = lookup_base(name.as_str()) {
        return Ok(found);
    }
    if let Some(found) = try_prefixed(token) {
        return Ok(found);
    }
    let mut reason = "unknown unit token ".to_owned();
    reason.push_str(quoted(name.as_str()).as_str());
    Err(ParseError { input: original.to_owned(), reason })
}

/// What a factor reads as.
enum FactorResult {
    Bad(String),
    Power(Vec<char>, Dimension, i8, i16, Option<char>),
}

impl FactorResult {
    spec fn is(self, f: Factor) -> bool {
        match self {
            FactorResult::Bad(reason) => f == (Factor::Bad { reason: reason@ }),
            FactorResult::Power(token, dim, power, exponent, after) => f == (Factor::Power {
                token: token@,
                meaning: Meaning { exponents: dim.exponents(), power: power as int },
                exponent: exponent as int,
                after,
            }) && -128 <= exponent <= 128 && -9 <= power <= 9,
        }
    }
}

fn take_chars(s: &[char], from: usize, to: usize) -> (v: Vec<char>)
    requires
        from <= to <= s@.len(),
    ensures
        v@ == s@.subrange(from as int, to as int),
{
    let mut v: Vec<char> = Vec::new();
    let mut i: usize = from;
    while i < to
        invariant
            from <= i <= to <= s@.len(),
            v@ == s@.subrange(from as int, i as int),
        decreases to - i,
    {
        v.push(s[i]);
        assert(v@ =~= s@.subrange(from as int, i + 1));
        i = i + 1;
    }
    v
}

/// The value of a numeral, or 1000 where it is more than that.
fn capped_value(s: &[char]) -> (r: i32)
    requires
        forall|i: int| 0 <= i < s@.len() ==> text::ascii_digit(#[trigger] s@[i]),
    ensures
        0 <= text::decimal_value(s@),
        r == if text::decimal_value(s@) < 1000 {
            text::decimal_value(s@)
        } else {
            1000
        },
{
    let mut r: i32 = 0;
    let mut i: usize = 0;
    while i < s.len()
        invariant
            i <= s@.len(),
            forall|k: int| 0 <= k < s@.len() ==> text::ascii_digit(#[trigger] s@[k]),
            0 <= text::decimal_value(s@.take(i as int)),
            r == if text::decimal_value(s@.take(i as int)) < 1000 {
                text::decimal_value(s@.take(i as int))
            } else {
                1000
            },
        decreases s@.len() - i,
    {
        proof {
            assert(s@.take(i + 1).drop_last() =~= s@.take(i as int));
            assert(text::ascii_digit(s@[i as int]));
        }
        let d: i32 = s[i] as i32 - '0' as i32;
        let next: i32 = r * 10 + d;
        r = if next < 1000 {
            next
        } else {
            1000
        };
        i = i + 1;
    }
    assert(s@.take(s@.len() as int) =~= s@);
    r
}

proof fn lemma_digits_end(s: Seq<char>, i: int)
    requires
        0 <= i <= s.len(),
    ensures
        i <= digits_end(s, i) <= s.len(),
        forall|k: int| i <= k < digits_end(s, i) ==> text::ascii_digit(#[trigger] s[k]),
    decreases s.len() - i,
{
    if i < s.len() && text::ascii_digit(s[i]) {
        lemma_digits_end(s, i + 1);
    }
}

proof fn lemma_caret_index(s: Seq<char>, i: int)
    requires
        0 <= i <= s.len(),
    ensures
        i <= caret_index(s, i) <= s.len(),
    decreases s.len() - i,
{
    if i < s.len() && s[i] != '^' {
        lemma_caret_index(s, i + 1);
    }
}

proof fn lemma_factor_end(s: Seq<char>, i: int)
    requires
        0 <= i <= s.len(),
    ensures
        i <= factor_end(s, i) <= s.len(),
        factor_end(s, i) < s.len() ==> operator(s[factor_end(s, i)]),
    decreases s.len() - i,
{
    if i < s.len() && !operator(s[i]) {
        lemma_factor_end(s, i + 1);
    }
}

proof fn lemma_meaning_power(token: Seq<char>)
    ensures
        token_meaning(token) is Some ==> -9 <= token_meaning(token)->0.power <= 9,
{
}

/// Reads the token of a factor raised to `value`.
fn read_power(op: char, token: Vec<char>, value: i16, after: Option<char>) -> (r: FactorResult)
    requires
        i8::MIN <= value <= i8::MAX,
    ensures
        r.is(powered(op, token@, value as int, after)),
{
    proof {
        lemma_meaning_power(token@);
    }
    match resolve_token(token.as_slice(), "") {
        Err(e) => FactorResult::Bad(e.reason),
        Ok(found) => {
            let exponent: i16 = if op == '/' {
                -value
            } else {
                value
            };
            FactorResult::Power(token, found.0, found.1, exponent, after)
        },
    }
}

/// Reads one factor behind operator `op`.
fn read_factor(op: char, f: &[char]) -> (r: FactorResult)
    ensures
        r.is(factor_reading(op, f@)),
{
    let mut caret: usize = 0;
    while caret < f.len() && f[caret] != '^'
        invariant
            caret <= f@.len(),
            caret_index(f@, 0) == caret_index(f@, caret as int),
        decreases f@.len() - caret,
    {
        caret = caret + 1;
    }
    assert(caret_index(f@, 0) == caret);
    let token = take_chars(f, 0, caret);
    assert(token@ =~= f@.take(caret as int));
    if caret == 0 {
        let mut reason = "expected a unit token after operator '".to_owned();
        reason.push(op);
        reason.push_str("'");
        assert(reason@ =~= "expected a unit token after operator '"@ + seq![op] + "'"@);
        return FactorResult::Bad(reason);
    }
    if caret == f.len() {
        return read_power(op, token, 1, None);
    }
    let rest = take_chars(f, caret + 1, f.len());
    assert(rest@ =~= f@.skip(caret + 1));
    let negative = rest.len() > 0 && rest[0] == '-';
    let sign: usize = if rest.len() > 0 && (rest[0] == '-' || rest[0] == '+') {
        1
    } else {
        0
    };
    let mut end: usize = sign;
    while end < rest.len() && is_ascii_digit(rest[end])
        invariant
            sign <= end <= rest@.len(),
            digits_end(rest@, sign as int) == digits_end(rest@, end as int),
        decreases rest@.len() - end,
    {
        end = end + 1;
    }
    assert(digits_end(rest@, sign as int) == end);
    proof {
        lemma_digits_end(rest@, sign as int);
    }
    if end == sign {
        let mut reason = "expected integer exponent after '^' in token ".to_owned();
        reason.push_str(quoted(string_of(token.as_slice()).as_str()).as_str());
        return FactorResult::Bad(reason);
    }
    let digits = take_chars(rest.as_slice(), sign, end);
    let magnitude: i32 = capped_value(digits.as_slice());
    let value: i32 = if negative {
        -magnitude
    } else {
        magnitude
    };
    if value < -128 || value > 127 {
        let exponent = take_chars(rest.as_slice(), 0, end);
        assert(exponent@ =~= rest@.take(end as int));
        let mut reason = "exponent ".to_owned();
        reason.push_str(quoted(string_of(exponent.as_slice()).as_str()).as_str());
        reason.push_str(" out of range for token ");
        reason.push_str(quoted(string_of(token.as_slice()).as_str()).as_str());
        return FactorResult::Bad(reason);
    }
    let after = if end < rest.len() {
        Some(rest[end])
    } else {
        None
    };
    read_power(op, token, value as i16, after)
}

/// One exponent of a product with a power, where the power and the product
/// both stay in range.
fn component(a: i8, b: i8, n: i16) -> (r: Option<i8>)
    requires
        -128 <= n <= 128,
    ensures
        r matches Some(c) ==> c == a + b * n && i8::MIN <= b * n <= i8::MAX,
        r is None ==> !(i8::MIN <= b * n <= i8::MAX) || !(i8::MIN <= a + b * n <= i8::MAX),
{
    assert(-128 * 128 <= b * n <= 128 * 128) by (nonlinear_arith)
        requires
            -128 <= b <= 127,
            -128 <= n <= 128,
    ;
    let power: i32 = b as i32 * n as i32;
    if power < -128 || power > 127 {
        return None;
    }
    let sum: i32 = a as i32 + power;
    if sum < -128 || sum > 127 {
        None
    } else {
        Some(sum as i8)
    }
}

/// The product of `a` with the `n`-th power of `b`, where every exponent stays in range.
fn times_power(a: Dimension, b: Dimension, n: i16) -> (r: Option<Dimension>)
    requires
        -128 <= n <= 128,
    ensures
        r is Some <==> n <= i8::MAX && in_range(
            product_with_power(no_exponents(), b.exponents(), n as int),
        ) && in_range(product_with_power(a.exponents(), b.exponents(), n as int)),
        r matches Some(d) ==> d.exponents() == product_with_power(
            a.exponents(),
            b.exponents(),
            n as int,
        ),
{
    if n > 127 {
        return None;
    }
    let ghost pow = product_with_power(no_exponents(), b.exponents(), n as int);
    let ghost product = product_with_power(a.exponents(), b.exponents(), n as int);
    let mass = component(a.mass, b.mass, n);
    let length = component(a.length, b.length, n);
    let time = component(a.time, b.time, n);
    let current = component(a.current, b.current, n);
    let temperature = component(a.temperature, b.temperature, n);
    let amount = component(a.amount, b.amount, n);
    let luminous = component(a.luminous, b.luminous, n);
    assert(pow[0] == b.mass * n && product[0] == a.mass + b.mass * n);
    assert(pow[1] == b.length * n && product[1] == a.length + b.length * n);
    assert(pow[2] == b.time * n && product[2] == a.time + b.time * n);
    assert(pow[3] == b.current * n && product[3] == a.current + b.current * n);
    assert(pow[4] == b.temperature * n && product[4] == a.temperature + b.temperature * n);
    assert(pow[5] == b.amount * n && product[5] == a.amount + b.amount * n);
    assert(pow[6] == b.luminous * n && product[6] == a.luminous + b.luminous * n);
    match (mass, length, time, current, temperature, amount, luminous) {
        (
            Some(mass),
            Some(length),
            Some(time),
            Some(current),
            Some(temperature),
            Some(amount),
            Some(luminous),
        ) => {
            let d = Dimension { mass, length, time, current, temperature, amount, luminous };
            assert(d.exponents() =~= product);
            Some(d)
        },
        _ => None,
    }
}

/// Removes the white space of a string.
fn strip(input: &str) -> (v: Vec<char>)
    ensures
        v@ == stripped(input@),
{
    let chars = chars_of(input);
    let mut v: Vec<char> = Vec::new();
    let mut i: usize = 0;
    while i < chars.len()
        invariant
            i <= chars@.len(),
            v@ == stripped(chars@.take(i as int)),
        decreases chars@.len() - i,
    {
        proof {
            reveal(Seq::filter);
            assert(chars@.take(i + 1).drop_last() =~= chars@.take(i as int));
        }
        if !is_white_space(chars[i]) {
            v.push(chars[i]);
        }
        i = i + 1;
    }
    assert(chars@.take(chars@.len() as int) =~= chars@);
    v
}

/// Parses a unit string, with `None` where an exponent leaves the range that a
/// `Dimension` holds.
pub fn checked_parse_unit(input: &str) -> (r: Option<Result<ParsedUnit, ParseError>>)
    ensures
        r is None <==> !unit_in_range(input@),
        r matches Some(parsed) ==> is_reading(input@, parsed),
{
    let s = strip(input);
    if s.len() == 0 {
        return Some(
            Err(ParseError { input: input.to_owned(), reason: "empty unit string".to_owned() }),
        );
    }
    let mut dim = Dimension::default();
    let mut power: i128 = 0;
    let mut op = '*';
    let mut start: usize = 0;
    assert(s@.skip(0) =~= s@);
    loop
        invariant
            start <= s@.len(),
            s@ == stripped(input@),
            s@.len() > 0,
            -1152 * start <= power <= 1152 * start,
            unit_reading(input@) == factors_reading(
                op,
                s@.skip(start as int),
                dim.exponents(),
                power as int,
            ),
        decreases s@.len() - start,
    {
        let ghost rest = s@.skip(start as int);
        let mut end: usize = start;
        while end < s.len() && s[end] != '*' && s[end] != '.' && s[end] != '/'
            invariant
                start <= end <= s@.len(),
                rest == s@.skip(start as int),
                factor_end(rest, 0) == factor_end(rest, end - start),
            decreases s@.len() - end,
        {
            assert(s@[end as int] == rest[end - start]);
            end = end + 1;
        }
        proof {
            if end < s@.len() {
                assert(s@[end as int] == rest[end - start]);
            }
            assert(factor_end(rest, 0) == end - start);
        }
        let factor = take_chars(s.as_slice(), start, end);
        assert(factor@ =~= rest.take(end - start));
        match read_factor(op, factor.as_slice()) {
            FactorResult::Bad(reason) => {
                return Some(Err(ParseError { input: input.to_owned(), reason }));
            },
            FactorResult::Power(token, token_dim, token_power, exponent, after) => {
                let product = match times_power(dim, token_dim, exponent) {
                    None => {
                        return None;
                    },
                    Some(product) => product,
                };
                if let Some(c) = after {
                    let mut reason = "unexpected character ".to_owned();
                    reason.push_str(quoted_char(c).as_str());
                    reason.push_str(" after token ");
                    reason.push_str(quoted(string_of(token.as_slice()).as_str()).as_str());
                    return Some(Err(ParseError { input: input.to_owned(), reason }));
                }
                assert(-1152 <= token_power * exponent <= 1152) by (nonlinear_arith)
                    requires
                        -9 <= token_power <= 9,
                        -128 <= exponent <= 128,
                ;
                let next_power: i128 = power + token_power as i128 * exponent as i128;
                if end == s.len() {
                    return Some(Ok(ParsedUnit { dim: product, scale_power: next_power }));
                }
                dim = product;
                power = next_power;
                op = s[end];
                proof {
                    assert(rest.skip(end - start + 1) =~= s@.skip(end + 1));
                    assert(rest[end - start] == s@[end as int]);
                }
                start = end + 1;
            },
        }
    }
}

/// Parses a unit string into its dimension and scale.
pub fn parse_unit(input: &str) -> (r: Result<ParsedUnit, ParseError>)
    requires
        unit_in_range(input@),
    ensures
        is_reading(input@, r),
{
    checked_parse_unit(input).unwrap()
}

/// Compares two unit strings for dimensional and scale equality: `Ok(true)`
/// where both parse to the same dimension and scale, `Ok(false)` where they
/// parse and differ, and the error of the first one that does not parse. The
/// second one is read only where the first one parses.
pub fn units_equal(a: &str, b: &str) -> (r: Result<bool, ParseError>)
    requires
        unit_in_range(a@),
        unit_reading(a@) is Unit ==> unit_in_range(b@),
    ensures
        match r {
            Ok(equal) => {
                &&& unit_reading(a@) is Unit
                &&& unit_reading(b@) is Unit
                &&& equal == (unit_reading(a@) == unit_reading(b@))
            },
            Err(e) => if unit_reading(a@) is Unit {
                is_reading(b@, Err(e))
            } else {
                is_reading(a@, Err(e))
            },
        },
{
    let pa = parse_unit(a)?;
    let pb = parse_unit(b)?;
    proof {
        lemma_exponents_injective(pa.dim, pb.dim);
    }
    Ok(pa.dim == pb.dim && pa.scale_power == pb.scale_power)
}

/// Two dimensions are the same exactly where their exponents are.
pub proof fn lemma_exponents_injective(a: Dimension, b: Dimension)
    ensures
        a == b <==> a.exponents() == b.exponents(),
{
    if a.exponents() == b.exponents() {
        assert(a.exponents()[0] == b.exponents()[0]);
        assert(a.exponents()[1] == b.exponents()[1]);
        assert(a.exponents()[2] == b.exponents()[2]);
        assert(a.exponents()[3] == b.exponents()[3]);
        assert(a.exponents()[4] == b.exponents()[4]);
        assert(a.exponents()[5] == b.exponents()[5]);
        assert(a.exponents()[6] == b.exponents()[6]);
    }
}

/// Sentinel substituted into the mismatch message where one side of a wire
/// declares no unit.
pub const UNKNOWN_UNIT_DISPLAY: &'static str = "<unknown>";

/// A declared unit as it is shown.
pub open spec fn shown_unit(unit: Option<&str>) -> Seq<char> {
    match unit {
        Some(u) => u@,
        None => UNKNOWN_UNIT_DISPLAY@,
    }
}

/// What a declared unit reads as. An undeclared one reads as no unit.
pub open spec fn declared_reading(unit: Option<&str>) -> Reading {
    match unit {
        Some(u) => unit_reading(u@),
        None => Reading::Failed { reason: Seq::empty() },
    }
}

/// Why two declared units do not match.
pub open spec fn mismatch_reason(dest: Option<&str>, source: Option<&str>) -> Seq<char> {
    match (declared_reading(dest), declared_reading(source)) {
        (
            Reading::Unit { exponents: d, power: dp },
            Reading::Unit { exponents: s, power: sp },
        ) => if d == s && dp != sp {
            description(d) + " dimension matches but scale differs ("@ + shown_unit(source)
                + " vs "@ + shown_unit(dest) + ")"@
        } else {
            "different dimensions ("@ + description(s) + " vs "@ + description(d) + ")"@
        },
        _ => "expected "@ + shown_unit(dest) + ", got "@ + shown_unit(source),
    }
}

/// The conversion hint for a wire between Kelvin and Celsius, empty on other wires.
pub open spec fn affine_hint(dest: Option<&str>, source: Option<&str>) -> Seq<char> {
    match (declared_reading(dest), declared_reading(source)) {
        (
            Reading::Unit { exponents: d, power: dp },
            Reading::Unit { exponents: s, power: sp },
        ) => if d != s || d != seq![0int, 0, 0, 0, 1, 0, 0] {
            Seq::empty()
        } else if sp == 0 && dp != 0 {
            " — K and °C are dimensionally compatible but require an offset conversion; insert an Affine(scale=1.0, offset=-273.15) between source and dest"@
        } else if sp != 0 && dp == 0 {
            " — °C and K are dimensionally compatible but require an offset conversion; insert an Affine(scale=1.0, offset=273.15) between source and dest"@
        } else {
            Seq::empty()
        },
        _ => Seq::empty(),
    }
}

/// The reading of a declared unit, in executable form.
fn parse_declared(unit: Option<&str>) -> (r: Option<ParsedUnit>)
    requires
        unit matches Some(u) ==> unit_in_range(u@),
    ensures
        match r {
            Some(u) => declared_reading(unit) == (Reading::Unit {
                exponents: u.dim.exponents(),
                power: u.scale_power as int,
            }),
            None => declared_reading(unit) !is Unit,
        },
{
    match unit {
        None => None,
        Some(u) => match parse_unit(u) {
            Ok(parsed) => Some(parsed),
            Err(_) => None,
        },
    }
}

/// Builds the message for a declared input unit that does not match the
/// upstream-declared output unit. It names the destination calc kind and input
/// field, the source, both units (or `<unknown>`) and a dimensional reason, and
/// on a wire between Kelvin and Celsius it ends in a copy-pasteable `Affine` hint.
pub fn unit_mismatch_message(
    dest_calc_kind: &str,
    dest_input_field: &str,
    source_name: &str,
    dest_unit: Option<&str>,
    source_unit: Option<&str>,
) -> (msg: String)
    requires
        dest_unit matches Some(u) ==> unit_in_range(u@),
        source_unit matches Some(u) ==> unit_in_range(u@),
    ensures
        msg@ == "Unit mismatch wiring `"@ + source_name@ + "` (declared "@ + shown_unit(source_unit)
            + ") into `"@ + dest_calc_kind@ + "` input `"@ + dest_input_field@ + "` (expected "@
            + shown_unit(dest_unit) + "): "@ + mismatch_reason(dest_unit, source_unit)
            + affine_hint(dest_unit, source_unit),
{
    let dest_str = match dest_unit {
        Some(u) => u,
        None => UNKNOWN_UNIT_DISPLAY,
    };
    let source_str = match source_unit {
        Some(u) => u,
        None => UNKNOWN_UNIT_DISPLAY,
    };
    let dest_parsed = parse_declared(dest_unit);
    let source_parsed = parse_declared(source_unit);
    let mut reason = String::new();
    let mut hint = "";
    proof {
        reveal_strlit("");
        assert(hint@ =~= Seq::<char>::empty());
    }
    match (dest_parsed, source_parsed) {
        (Some(d), Some(s)) => {
            proof {
                lemma_exponents_injective(d.dim, s.dim);
            }
            if d.dim == s.dim && d.scale_power != s.scale_power {
                reason = d.dim.describe();
                reason.push_str(" dimension matches but scale differs (");
                reason.push_str(source_str);
                reason.push_str(" vs ");
                reason.push_str(dest_str);
                reason.push_str(")");
            } else {
                reason.push_str("different dimensions (");
                reason.push_str(s.dim.describe().as_str());
                reason.push_str(" vs ");
                reason.push_str(d.dim.describe().as_str());
                reason.push_str(")");
                assert(reason@ =~= mismatch_reason(dest_unit, source_unit));
            }
            let kelvin = Dimension::new(0, 0, 0, 0, 1, 0, 0);
            proof {
                lemma_exponents_injective(d.dim, kelvin);
            }
            if d.dim == s.dim && d.dim == kelvin {
                if s.scale_power == 0 && d.scale_power != 0 {
                    hint =
                    " — K and °C are dimensionally compatible but require an offset conversion; insert an Affine(scale=1.0, offset=-273.15) between source and dest";
                } else if s.scale_power != 0 && d.scale_power == 0 {
                    hint =
                    " — °C and K are dimensionally compatible but require an offset conversion; insert an Affine(scale=1.0, offset=273.15) between source and dest";
                }
            }
        },
        _ => {
            reason.push_str("expected ");
            reason.push_str(dest_str);
            reason.push_str(", got ");
            reason.push_str(source_str);
            assert(reason@ =~= mismatch_reason(dest_unit, source_unit));
        },
    }
    let mut msg = "Unit mismatch wiring `".to_owned();
    msg.push_str(source_name);
    msg.push_str("` (declared ");
    msg.push_str(source_str);
    msg.push_str(") into `");
    msg.push_str(dest_calc_kind);
    msg.push_str("` input `");
    msg.push_str(dest_input_field);
    msg.push_str("` (expected ");
    msg.push_str(dest_str);
    msg.push_str("): ");
    msg.push_str(reason.as_str());
    msg.push_str(hint);
    msg
}

/// White space is ignored: a white space character put anywhere into a unit
/// string changes nothing of what the string reads as.
pub proof fn law_white_space_is_ignored(input: Seq<char>, i: int, c: char)
    requires
        0 <= i <= input.len(),
        text::white_space(c),
    ensures
        unit_reading(input.insert(i, c)) == unit_reading(input),
{
    let keep = |c: char| !text::white_space(c);
    let before = input.take(i);
    let after = input.skip(i);
    assert(input =~= before + after);
    assert(input.insert(i, c) =~= before + (seq![c] + after));
    Seq::filter_distributes_over_add(before, after, keep);
    Seq::filter_distributes_over_add(before, seq![c] + after, keep);
    Seq::filter_distributes_over_add(seq![c], after, keep);
    assert(seq![c].filter(keep) =~= Seq::<char>::empty()) by {
        reveal(Seq::filter);
        assert(seq![c] =~= Seq::<char>::empty().push(c));
        Seq::<char>::empty().lemma_filter_push(c, keep);
    }
    assert(seq![c].filter(keep) + after.filter(keep) =~= after.filter(keep));
}

/// The same string with `*` in place of every `.`.
pub open spec fn dots_as_stars(s: Seq<char>) -> Seq<char> {
    s.map_values(
        |c: char|
            if c == '.' {
                '*'
            } else {
                c
            },
    )
}

proof fn lemma_dots_factor_end(s: Seq<char>, i: int)
    requires
        0 <= i <= s.len(),
    ensures
        factor_end(dots_as_stars(s), i) == factor_end(s, i),
        dots_as_stars(s).subrange(i, factor_end(s, i)) =~= s.subrange(i, factor_end(s, i)),
        i <= factor_end(s, i) <= s.len(),
    decreases s.len() - i,
{
    if i < s.len() && !operator(s[i]) {
        lemma_dots_factor_end(s, i + 1);
        let end = factor_end(s, i);
        assert(dots_as_stars(s).subrange(i, end) =~= seq![s[i]] + dots_as_stars(s).subrange(
            i + 1,
            end,
        ));
        assert(s.subrange(i, end) =~= seq![s[i]] + s.subrange(i + 1, end));
    }
}

proof fn lemma_dots_factors(op: char, s: Seq<char>, exponents: Seq<int>, power: int)
    requires
        factors_reading(op, s, exponents, power) is Unit,
    ensures
        factors_reading(
            if op == '.' {
                '*'
            } else {
                op
            },
            dots_as_stars(s),
            exponents,
            power,
        ) == factors_reading(op, s, exponents, power),
    decreases s.len(),
{
    lemma_dots_factor_end(s, 0);
    lemma_factor_end(s, 0);
    let end = factor_end(s, 0);
    assert(s.take(end) =~= s.subrange(0, end));
    assert(dots_as_stars(s).take(end) =~= dots_as_stars(s).subrange(0, end));
    if let Factor::Power { token, meaning, exponent, after } = factor_reading(op, s.take(end)) {
        if end < s.len() {
            let product = product_with_power(exponents, meaning.exponents, exponent);
            lemma_dots_factors(
                s[end],
                s.skip(end + 1),
                product,
                power + meaning.power * exponent,
            );
            assert(dots_as_stars(s).skip(end + 1) =~= dots_as_stars(s.skip(end + 1)));
        }
    }
}

proof fn lemma_dots_stripped(s: Seq<char>)
    ensures
        stripped(dots_as_stars(s)) =~= dots_as_stars(stripped(s)),
    decreases s.len(),
{
    reveal(Seq::filter);
    if s.len() > 0 {
        lemma_dots_stripped(s.drop_last());
        assert(dots_as_stars(s).drop_last() =~= dots_as_stars(s.drop_last()));
        assert(dots_as_stars(s).last() == if s.last() == '.' {
            '*'
        } else {
            s.last()
        });
    }
}

/// `.` and `*` are the same operator: a unit string that parses reads the same
/// with every `.` written as `*`.
pub proof fn law_dot_is_star(input: Seq<char>)
    requires
        unit_reading(input) is Unit,
    ensures
        unit_reading(dots_as_stars(input)) == unit_reading(input),
{
    lemma_dots_stripped(input);
    lemma_dots_factors('*', stripped(input), no_exponents(), 0);
}

/// The first factor of a text is the same with an operator and more behind it.
proof fn lemma_factor_end_before(s: Seq<char>, t: Seq<char>, i: int)
    requires
        0 <= i <= s.len(),
        t.len() > 0,
        operator(t[0]),
    ensures
        factor_end(s + t, i) == factor_end(s, i),
    decreases s.len() - i,
{
    if i < s.len() {
        assert((s + t)[i] == s[i]);
        if !operator(s[i]) {
            lemma_factor_end_before(s, t, i + 1);
        }
    } else {
        assert((s + t)[i] == t[0]);
    }
}

/// Factors behind an operator are read onto the product of those before it.
pub proof fn lemma_factors_behind(
    op: char,
    s: Seq<char>,
    next: char,
    t: Seq<char>,
    exponents: Seq<int>,
    power: int,
)
    requires
        operator(next),
        factors_reading(op, s, exponents, power) is Unit,
    ensures
        factors_reading(op, s + (seq![next] + t), exponents, power) == factors_reading(
            next,
            t,
            factors_reading(op, s, exponents, power)->exponents,
            factors_reading(op, s, exponents, power)->power,
        ),
    decreases s.len(),
{
    let tail = seq![next] + t;
    let whole = s + tail;
    let end = factor_end(s, 0);
    lemma_factor_end(s, 0);
    lemma_factor_end_before(s, tail, 0);
    assert(whole.take(end) =~= s.take(end));
    if let Factor::Power { token, meaning, exponent, after } = factor_reading(op, s.take(end)) {
        if end < s.len() {
            assert(whole[end] == s[end]);
            assert(whole.skip(end + 1) =~= s.skip(end + 1) + tail);
            lemma_factors_behind(
                s[end],
                s.skip(end + 1),
                next,
                t,
                product_with_power(exponents, meaning.exponents, exponent),
                power + meaning.power * exponent,
            );
        } else {
            assert(whole[end] == next);
            assert(whole.skip(end + 1) =~= t);
        }
    }
}

/// Whether two operators do the same.
spec fn same_operator(a: char, b: char) -> bool {
    a == b || (a != '/' && b != '/')
}

/// Factors multiply any product by the same.
proof fn lemma_factors_shift(
    op: char,
    other: char,
    s: Seq<char>,
    from: Seq<int>,
    from_power: int,
    to: Seq<int>,
    to_power: int,
)
    requires
        same_operator(op, other),
        factors_reading(op, s, from, from_power) is Unit,
        factors_reading(other, s, to, to_power) !is OutOfRange,
    ensures
        factors_reading(other, s, to, to_power) == (Reading::Unit {
            exponents: Seq::new(
                base_dimensions(),
                |i: int| to[i] + factors_reading(op, s, from, from_power)->exponents[i] - from[i],
            ),
            power: to_power + factors_reading(op, s, from, from_power)->power - from_power,
        }),
    decreases s.len(),
{
    let end = factor_end(s, 0);
    lemma_factor_end(s, 0);
    if let Factor::Power { token, meaning, exponent, after } = factor_reading(op, s.take(end)) {
        assert(factor_reading(other, s.take(end)) == factor_reading(op, s.take(end)));
        let a = product_with_power(from, meaning.exponents, exponent);
        let b = product_with_power(to, meaning.exponents, exponent);
        let reached = factors_reading(op, s, from, from_power)->exponents;
        if end < s.len() {
            lemma_factors_shift(
                s[end],
                s[end],
                s.skip(end + 1),
                a,
                from_power + meaning.power * exponent,
                b,
                to_power + meaning.power * exponent,
            );
            assert(Seq::new(base_dimensions(), |i: int| b[i] + reached[i] - a[i]) =~= Seq::new(
                base_dimensions(),
                |i: int| to[i] + reached[i] - from[i],
            ));
        } else {
            assert(b =~= Seq::new(base_dimensions(), |i: int| to[i] + reached[i] - from[i]));
        }
    }
}

/// White space is left out of two texts and an operator between them alike.
pub proof fn lemma_stripped_join(a: Seq<char>, op: char, b: Seq<char>)
    requires
        operator(op),
    ensures
        stripped(a + seq![op] + b) == stripped(a) + (seq![op] + stripped(b)),
{
    let keep = |c: char| !text::white_space(c);
    assert(seq![op].filter(keep) =~= seq![op]) by {
        reveal(Seq::filter);
        assert(seq![op] =~= Seq::<char>::empty().push(op));
        Seq::<char>::empty().lemma_filter_push(op, keep);
    }
    assert(a + seq![op] + b =~= a + (seq![op] + b));
    Seq::filter_distributes_over_add(a, seq![op] + b, keep);
    Seq::filter_distributes_over_add(seq![op], b, keep);
}

/// A unit string behind another and `*` or `.` is their product: the exponents are
/// added up, and so are the powers of ten, where the exponents stay in range from
/// factor to factor.
pub proof fn law_joined_units_multiply(a: Seq<char>, op: char, b: Seq<char>)
    requires
        op == '*' || op == '.',
        unit_reading(a) is Unit,
        unit_reading(b) is Unit,
        unit_in_range(a + seq![op] + b),
    ensures
        unit_reading(a + seq![op] + b) == (Reading::Unit {
            exponents: product_with_power(
                unit_reading(a)->exponents,
                unit_reading(b)->exponents,
                1,
            ),
            power: unit_reading(a)->power + unit_reading(b)->power,
        }),
{
    lemma_stripped_join(a, op, b);
    let s = stripped(a);
    let t = stripped(b);
    let e = unit_reading(a)->exponents;
    let f = unit_reading(b)->exponents;
    lemma_factors_behind('*', s, op, t, no_exponents(), 0);
    lemma_factors_shift('*', op, t, no_exponents(), 0, e, unit_reading(a)->power);
    assert(Seq::new(base_dimensions(), |i: int| e[i] + f[i] - no_exponents()[i])
        =~= product_with_power(e, f, 1));
}

/// A single factor behind a unit string and `/` divides it: its exponents are
/// subtracted, and so is its power of ten, where the exponents stay in range.
pub proof fn law_slash_divides(a: Seq<char>, b: Seq<char>)
    requires
        unit_reading(a) is Unit,
        unit_reading(b) is Unit,
        forall|i: int| 0 <= i < b.len() ==> !operator(#[trigger] b[i]),
        unit_in_range(a + seq!['/'] + b),
    ensures
        unit_reading(a + seq!['/'] + b) == (Reading::Unit {
            exponents: product_with_power(
                unit_reading(a)->exponents,
                unit_reading(b)->exponents,
                -1,
            ),
            power: unit_reading(a)->power - unit_reading(b)->power,
        }),
{
    lemma_stripped_join(a, '/', b);
    let s = stripped(a);
    let t = stripped(b);
    let e = unit_reading(a)->exponents;
    let f = unit_reading(b)->exponents;
    lemma_factors_behind('*', s, '/', t, no_exponents(), 0);
    lemma_factor_end(t, 0);
    let end = factor_end(t, 0);
    if end < t.len() {
        let keep = |c: char| !text::white_space(c);
        assert(t.contains(t[end]));
        b.lemma_filter_contains_rev(keep, t[end]);
        let i = choose|i: int| 0 <= i < b.len() && b[i] == t[end];
        assert(!operator(b[i]));
    }
    if let Factor::Power { token, meaning, exponent, after } = factor_reading('*', t.take(end)) {
        let m = meaning.exponents;
        assert(factor_reading('/', t.take(end)) == (Factor::Power {
            token,
            meaning,
            exponent: -exponent,
            after,
        }));
        assert forall|i: int| 0 <= i < base_dimensions() implies e[i] + m[i] * (-exponent) == e[i]
            + (#[trigger] f[i]) * -1 by {
            assert(m[i] * (-exponent) == -(m[i] * exponent)) by (nonlinear_arith);
        }
        assert(product_with_power(e, m, -exponent) =~= product_with_power(e, f, -1));
        assert(meaning.power * (-exponent) == -(meaning.power * exponent)) by (nonlinear_arith);
    }
}

/// Multiplication of dimensions commutes.
pub proof fn law_mul_commutes(a: Dimension, b: Dimension)
    ensures
        product_with_power(a.exponents(), b.exponents(), 1) == product_with_power(
            b.exponents(),
            a.exponents(),
            1,
        ),
{
    assert(product_with_power(a.exponents(), b.exponents(), 1) =~= product_with_power(
        b.exponents(),
        a.exponents(),
        1,
    ));
}

/// Multiplication of dimensions is associative.
pub proof fn law_mul_associates(a: Dimension, b: Dimension, c: Dimension)
    ensures
        product_with_power(
            product_with_power(a.exponents(), b.exponents(), 1),
            c.exponents(),
            1,
        ) == product_with_power(
            a.exponents(),
            product_with_power(b.exponents(), c.exponents(), 1),
            1,
        ),
{
    assert(product_with_power(
        product_with_power(a.exponents(), b.exponents(), 1),
        c.exponents(),
        1,
    ) =~= product_with_power(
        a.exponents(),
        product_with_power(b.exponents(), c.exponents(), 1),
        1,
    ));
}

/// The powers of a dimension add up: the `m`-th power times the `n`-th power is
/// the power of the sum.
pub proof fn law_powers_add(a: Dimension, m: int, n: int)
    ensures
        product_with_power(
            product_with_power(no_exponents(), a.exponents(), m),
            a.exponents(),
            n,
        ) == product_with_power(no_exponents(), a.exponents(), m + n),
{
    let e = a.exponents();
    assert forall|i: int| 0 <= i < base_dimensions() implies #[trigger] e[i] * m + e[i] * n == e[i]
        * (m + n) by {
        vstd::arithmetic::mul::lemma_mul_is_distributive_add(e[i], m, n);
    }
    assert(product_with_power(product_with_power(no_exponents(), e, m), e, n)
        =~= product_with_power(no_exponents(), e, m + n));
}

/// No token but `K`, `°C` and `degC` is a plain temperature, so a plain
/// temperature's scale tells Kelvin (power 0) from Celsius (the marker power).
pub proof fn law_temperature_tokens(token: Seq<char>)
    requires
        token_meaning(token) is Some,
        token_meaning(token)->0.exponents == seq![0int, 0, 0, 0, 1, 0, 0],
    ensures
        token == "K"@ || token == "°C"@ || token == "degC"@,
        token_meaning(token)->0.power == 0 <==> token == "K"@,
        token_meaning(token)->0.power == CELSIUS_POWER <==> token != "K"@,
{
    reveal_strlit("1");
    reveal_strlit("rad");
    reveal_strlit("s");
    reveal_strlit("m");
    reveal_strlit("kg");
    reveal_strlit("A");
    reveal_strlit("K");
    reveal_strlit("mol");
    reveal_strlit("cd");
    reveal_strlit("Hz");
    reveal_strlit("N");
    reveal_strlit("Pa");
    reveal_strlit("J");
    reveal_strlit("W");
    reveal_strlit("C");
    reveal_strlit("V");
    reveal_strlit("ohm");
    reveal_strlit("°C");
    reveal_strlit("degC");
    assert("K"@.len() == 1 && "°C"@.len() == 2 && "degC"@.len() == 4);
    assert("K"@[0] == 'K' && "°C"@[0] == '°');
    let temperature = seq![0int, 0, 0, 0, 1, 0, 0];
    assert(temperature[4] == 1);
    if base_unit(token) is Some {
        assert(base_unit(token)->0.exponents[4] == 1);
        assert(no_exponents()[4] == 0);
    } else {
        let base = token.skip(1);
        assert("Pa"@[0] == 'P' && "Hz"@[0] == 'H' && "V"@[0] == 'V' && "A"@[0] == 'A');
        assert("N"@[0] == 'N' && "W"@[0] == 'W' && "J"@[0] == 'J' && "s"@[0] == 's');
        assert("ohm"@[0] == 'o' && "C"@[0] == 'C' && "degC"@[0] == 'd');
        assert(base != "K"@ && base != "°C"@ && base != "degC"@);
        assert(base_unit(base)->0.exponents[4] == 1);
        assert(no_exponents()[4] == 0);
    }
}

/// A hint is given exactly where both units are of temperature and one of them, and
/// only one, has the scale of the kelvin. It says by how much to go from the source to
/// the destination: down from kelvin, and up to it.
pub proof fn law_hint_goes_to_the_other_scale(dest: &str, source: &str, d: int, s: int)
    requires
        unit_reading(dest@) == (Reading::Unit { exponents: seq![0int, 0, 0, 0, 1, 0, 0], power: d }),
        unit_reading(source@) == (Reading::Unit {
            exponents: seq![0int, 0, 0, 0, 1, 0, 0],
            power: s,
        }),
    ensures
        ({
            let hint = affine_hint(Some(dest), Some(source));
            &&& hint.len() == 0 <==> (d == 0 <==> s == 0)
            &&& s == 0 && d != 0 ==> text::ends_with(
                hint,
                "offset=-273.15) between source and dest"@,
            )
            &&& d == 0 && s != 0 ==> text::ends_with(
                hint,
                "offset=273.15) between source and dest"@,
            )
        }),
{
    reveal_strlit("offset=-273.15) between source and dest");
    reveal_strlit("offset=273.15) between source and dest");
    reveal_strlit(" — K and °C are dimensionally compatible but require an offset conversion; insert an Affine(scale=1.0, offset=-273.15) between source and dest");
    reveal_strlit(" — °C and K are dimensionally compatible but require an offset conversion; insert an Affine(scale=1.0, offset=273.15) between source and dest");
    assert(" — K and °C are dimensionally compatible but require an offset conversion; insert an Affine(scale=1.0, offset=-273.15) between source and dest"@.skip(103) =~= "offset=-273.15) between source and dest"@);
    assert(" — °C and K are dimensionally compatible but require an offset conversion; insert an Affine(scale=1.0, offset=273.15) between source and dest"@.skip(103) =~= "offset=273.15) between source and dest"@);
}

/// No hint is given where a unit is unknown or no temperature.
pub proof fn law_hint_is_for_temperatures(dest: Option<&str>, source: Option<&str>)
    ensures
        affine_hint(dest, source).len() > 0 ==> {
            &&& dest is Some && source is Some
            &&& unit_reading(dest->0@) matches Reading::Unit { exponents, .. } && exponents
                == seq![0int, 0, 0, 0, 1, 0, 0]
            &&& unit_reading(source->0@) matches Reading::Unit { exponents, .. } && exponents
                == seq![0int, 0, 0, 0, 1, 0, 0]
        },
{
}

/// The reason of a mismatch names what differs. It speaks of the scale where the
/// dimensions are the same, with the source before the destination, and of the
/// dimensions where they are not.
pub proof fn law_mismatch_names_what_differs(dest: &str, source: &str)
    requires
        unit_reading(dest@) is Unit,
        unit_reading(source@) is Unit,
        unit_reading(dest@) != unit_reading(source@),
    ensures
        ({
            let d = unit_reading(dest@)->exponents;
            let s = unit_reading(source@)->exponents;
            let reason = mismatch_reason(Some(dest), Some(source));
            &&& d == s ==> text::starts_with(reason, description(d)) && text::ends_with(
                reason,
                " scale differs ("@ + source@ + " vs "@ + dest@ + ")"@,
            )
            &&& d != s ==> text::starts_with(reason, "different dimensions ("@) && text::ends_with(
                reason,
                description(s) + " vs "@ + description(d) + ")"@,
            )
        }),
{
    let d = unit_reading(dest@)->exponents;
    let s = unit_reading(source@)->exponents;
    let reason = mismatch_reason(Some(dest), Some(source));
    if d == s {
        let end = " scale differs ("@ + source@ + " vs "@ + dest@ + ")"@;
        reveal_strlit(" dimension matches but scale differs (");
        reveal_strlit(" dimension matches but");
        reveal_strlit(" scale differs (");
        assert(reason =~= description(d) + " dimension matches but"@ + end);
        assert(reason.take(description(d).len() as int) =~= description(d));
        assert(reason.skip(reason.len() - end.len()) =~= end);
    } else {
        let end = description(s) + " vs "@ + description(d) + ")"@;
        let start = "different dimensions ("@;
        assert(reason =~= start + end);
        assert(reason.take(start.len() as int) =~= start);
        assert(reason.skip(reason.len() - end.len()) =~= end);
    }
}

} // verus!
