//! Double-precision numbers as their 64-bit patterns: the tests and comparisons
//! that the control logic makes on them, without any arithmetic.

use vstd::prelude::*;

verus! {

/// Weight of the sign bit.
pub const SIGN: u64 = 0x8000_0000_0000_0000;

/// The magnitude bits of an infinity. Larger magnitudes are NaN.
pub const INFINITE: u64 = 0x7ff0_0000_0000_0000;

/// Weight of the lowest bit of the exponent, which is also that of the leading
/// bit of a significand.
pub const LEADING: u64 = 0x10_0000_0000_0000;

/// The exponent bits of 1.
pub const EXPONENT_OF_ONE: u64 = 1023;

/// The bits of the number two to the power of 32.
pub const TWO_TO_32_BITS: u64 = 0x41f0_0000_0000_0000;

/// A double-precision number, by the bits of its IEEE 754 encoding.
#[derive(Debug, Clone, Copy, PartialEq, Eq, Structural)]
pub struct Real {
    pub bits: u64,
}

impl Real {
    /// The bits below the sign.
    pub open spec fn magnitude(self) -> int {
        self.bits as int % SIGN as int
    }

    /// Whether the sign bit is set.
    pub open spec fn negative(self) -> bool {
        self.bits >= SIGN
    }

    /// Whether the number is not a number.
    pub open spec fn nan(self) -> bool {
        self.magnitude() > INFINITE
    }

    /// Whether the number is neither infinite nor NaN.
    pub open spec fn finite(self) -> bool {
        self.magnitude() < INFINITE
    }

    /// An integer that orders the numbers that are not NaN: both zeros are 0,
    /// and a larger number has a larger key.
    pub open spec fn key(self) -> int {
        if self.negative() {
            -self.magnitude()
        } else {
            self.magnitude()
        }
    }

    /// `self < other`. False where either side is NaN.
    pub open spec fn lt(self, other: Real) -> bool {
        !self.nan() && !other.nan() && self.key() < other.key()
    }

    /// `self <= other`. False where either side is NaN.
    pub open spec fn le(self, other: Real) -> bool {
        !self.nan() && !other.nan() && self.key() <= other.key()
    }

    /// Numeric `self == other`. False where either side is NaN, true of the two zeros.
    pub open spec fn same(self, other: Real) -> bool {
        !self.nan() && !other.nan() && self.key() == other.key()
    }

    /// Whether the number is finite and greater than zero.
    pub open spec fn finite_positive(self) -> bool {
        self.finite() && self.key() > 0
    }

    /// The number of the range `lo` to `hi` that is nearest.
    pub open spec fn clamped(self, lo: Real, hi: Real) -> Real {
        if self.lt(lo) {
            lo
        } else if hi.lt(self) {
            hi
        } else {
            self
        }
    }

    /// The largest 32-bit integer that is not above the number: zero where the
    /// number is not a number or below one, the largest integer where it is above
    /// all of them.
    pub open spec fn whole_u32(self) -> int {
        let exponent = self.bits as int / LEADING as int;
        if self.nan() || self.negative() || exponent < EXPONENT_OF_ONE {
            0
        } else if self.bits >= TWO_TO_32_BITS {
            u32::MAX as int
        } else {
            (LEADING + self.bits as int % LEADING as int) / vstd::arithmetic::power2::pow2(
                (EXPONENT_OF_ONE + 52 - exponent) as nat,
            ) as int
        }
    }

    /// The number with its sign flipped.
    pub open spec fn negated(self) -> Real {
        Real {
            bits: if self.negative() {
                (self.bits - SIGN) as u64
            } else {
                (self.bits + SIGN) as u64
            },
        }
    }

    /// Converts the number to a 32-bit integer, rounding towards zero and
    /// saturating.
    pub fn saturating_u32(self) -> (r: u32)
        ensures
            r == self.whole_u32(),
    {
        let exponent: u64 = self.bits / LEADING;
        if self.is_nan() || self.bits >= SIGN || exponent < EXPONENT_OF_ONE {
            return 0;
        }
        if self.bits >= TWO_TO_32_BITS {
            return u32::MAX;
        }
        let significand: u64 = LEADING + self.bits % LEADING;
        let shift: u64 = EXPONENT_OF_ONE + 52 - exponent;
        proof {
            vstd::bits::lemma_u64_shr_is_div(significand, shift);
            assert(significand >> shift <= 0xffff_ffff) by (bit_vector)
                requires
                    significand < 0x20_0000_0000_0000,
                    21 <= shift <= 52,
            ;
        }
        (significand >> shift) as u32
    }

    /// The number with the given bits.
    pub fn from_bits(bits: u64) -> (r: Real)
        ensures
            r.bits == bits,
    {
        Real { bits }
    }

    /// Positive zero.
    pub fn zero() -> (r: Real)
        ensures
            r == zero(),
    {
        Real { bits: 0 }
    }

    /// The bits of the number.
    pub fn to_bits(self) -> (r: u64)
        ensures
            r == self.bits,
    {
        self.bits
    }

    /// Tests for NaN.
    pub fn is_nan(self) -> (r: bool)
        ensures
            r == self.nan(),
    {
        self.bits % SIGN > INFINITE
    }

    /// Tests for a number that is neither infinite nor NaN.
    pub fn is_finite(self) -> (r: bool)
        ensures
            r == self.finite(),
    {
        self.bits % SIGN < INFINITE
    }

    /// Compares: `self < other`.
    pub fn less(self, other: Real) -> (r: bool)
        ensures
            r == self.lt(other),
    {
        if self.is_nan() || other.is_nan() {
            false
        } else if self.bits >= SIGN {
            if other.bits >= SIGN {
                self.bits % SIGN > other.bits % SIGN
            } else {
                self.bits % SIGN > 0 || other.bits % SIGN > 0
            }
        } else if other.bits >= SIGN {
            false
        } else {
            self.bits < other.bits
        }
    }

    /// Compares: `self <= other`.
    pub fn at_most(self, other: Real) -> (r: bool)
        ensures
            r == self.le(other),
    {
        if self.is_nan() || other.is_nan() {
            false
        } else {
            !other.less(self)
        }
    }

    /// Compares: numeric `self == other`.
    pub fn equals(self, other: Real) -> (r: bool)
        ensures
            r == self.same(other),
    {
        self.at_most(other) && other.at_most(self)
    }

    /// Tests for a finite number greater than zero.
    pub fn is_finite_positive(self) -> (r: bool)
        ensures
            r == self.finite_positive(),
    {
        self.is_finite() && Real::zero().less(self)
    }

    /// Brings the number into the range `lo` to `hi`.
    pub fn clamp(self, lo: Real, hi: Real) -> (r: Real)
        requires
            lo.le(hi),
        ensures
            r == self.clamped(lo, hi),
    {
        if self.less(lo) {
            lo
        } else if hi.less(self) {
            hi
        } else {
            self
        }
    }

    /// Flips the sign.
    pub fn negate(self) -> (r: Real)
        ensures
            r == self.negated(),
    {
        if self.bits >= SIGN {
            Real { bits: self.bits - SIGN }
        } else {
            Real { bits: self.bits + SIGN }
        }
    }
}

/// Positive zero.
pub open spec fn zero() -> Real {
    Real { bits: 0 }
}

/// Numeric equality of optional numbers: both absent, or both present and equal.
pub open spec fn same_option(a: Option<Real>, b: Option<Real>) -> bool {
    match (a, b) {
        (Some(x), Some(y)) => x.same(y),
        (None, None) => true,
        _ => false,
    }
}

/// Compares optional numbers: both absent, or both present and equal.
pub fn equal_options(a: Option<Real>, b: Option<Real>) -> (r: bool)
    ensures
        r == same_option(a, b),
{
    match (a, b) {
        (Some(x), Some(y)) => x.equals(y),
        (None, None) => true,
        _ => false,
    }
}

/// Flipping the sign twice gives the number back, and flipping it once flips its
/// place in the order.
pub proof fn law_negation(a: Real)
    ensures
        a.negated().negated() == a,
        a.negated().nan() == a.nan(),
        a.negated().key() == -a.key(),
{
}

/// The order of the numbers that are not NaN is total and transitive.
pub proof fn law_order(a: Real, b: Real, c: Real)
    requires
        !a.nan(),
        !b.nan(),
        !c.nan(),
    ensures
        a.le(b) || b.lt(a),
        !(a.lt(b) && b.le(a)),
        a.le(b) && b.le(c) ==> a.le(c),
{
}

/// Two to a power.
pub open spec fn two_to(n: nat) -> nat
    decreases n,
{
    if n == 0 {
        1
    } else {
        2 * two_to((n - 1) as nat)
    }
}

/// Whether a positive number is the fraction `num / den`, to within one unit of its
/// last place. The number is below two to the power of 52.
pub open spec fn is_about(x: Real, num: int, den: int) -> bool {
    let exponent = x.bits / LEADING;
    let significand = LEADING + x.bits % LEADING;
    let places = 1075 - exponent;
    &&& 0 < exponent < 1075
    &&& -den <= significand * den - num * two_to(places as nat) <= den
}

/// A number is brought to the nearest one of a range: it stays where it is in the
/// range, and goes to the end that it is beyond where it is not.
pub proof fn law_clamping_goes_to_the_nearest(x: Real, lo: Real, hi: Real)
    requires
        lo.le(hi),
    ensures
        !x.nan() ==> lo.le(x.clamped(lo, hi)) && x.clamped(lo, hi).le(hi),
        lo.le(x) && x.le(hi) ==> x.clamped(lo, hi) == x,
        x.lt(lo) ==> x.clamped(lo, hi) == lo,
        hi.lt(x) ==> x.clamped(lo, hi) == hi,
        x.nan() ==> x.clamped(lo, hi) == x,
{
}

/// The whole part of a number from one up to the largest integer of 32 bits is not
/// above it, and the next integer is: the number is its significand over two to the
/// number of its binary places.
pub proof fn law_whole_part_is_below(x: Real)
    requires
        (Real { bits: ONE_BITS }).le(x),
        x.lt(Real { bits: TWO_TO_32_BITS }),
    ensures
        ({
            let significand = LEADING + x.bits % LEADING;
            let one = two_to((1075 - x.bits / LEADING) as nat);
            &&& x.whole_u32() * one <= significand < (x.whole_u32() + 1) * one
            &&& 1 <= x.whole_u32() <= u32::MAX
        }),
{
    let exponent: u64 = x.bits / LEADING;
    let significand: u64 = (LEADING + x.bits % LEADING) as u64;
    let places = (1075 - exponent) as nat;
    let one = two_to(places) as int;
    lemma_two_to(places);
    vstd::arithmetic::power2::lemma_pow2_pos(places);
    vstd::arithmetic::div_mod::lemma_fundamental_div_mod(significand as int, one);
    vstd::arithmetic::div_mod::lemma_mod_bound(significand as int, one);
    let whole = significand as int / one;
    assert(x.whole_u32() == whole);
    assert(whole * one <= significand < (whole + 1) * one) by (nonlinear_arith)
        requires
            significand == one * whole + significand as int % one,
            0 <= significand as int % one < one,
    ;
    let shift: u64 = (1075 - exponent) as u64;
    vstd::bits::lemma_u64_shr_is_div(significand, shift);
    assert(1 <= significand >> shift <= 0xffff_ffff) by (bit_vector)
        requires
            0x10_0000_0000_0000 <= significand < 0x20_0000_0000_0000,
            21 <= shift <= 52,
    ;
}

/// The bits of 1.
pub const ONE_BITS: u64 = 0x3ff0_0000_0000_0000;

/// A number below one has no whole part, and one above all integers of 32 bits has
/// the largest of them.
pub proof fn law_whole_part_saturates(x: Real)
    ensures
        x.lt(Real { bits: ONE_BITS }) || x.nan() ==> x.whole_u32() == 0,
        (Real { bits: TWO_TO_32_BITS }).le(x) ==> x.whole_u32() == 4_294_967_295,
{
}

/// Two to a power, as the arithmetic library has it.
pub proof fn lemma_two_to(n: nat)
    ensures
        two_to(n) == vstd::arithmetic::power2::pow2(n),
    decreases n,
{
    if n > 0 {
        lemma_two_to((n - 1) as nat);
        vstd::arithmetic::power2::lemma_pow2_unfold(n);
    } else {
        vstd::arithmetic::power2::lemma2_to64();
    }
}

/// Two to some powers.
pub proof fn lemma_powers_of_two()
    ensures
        two_to(21) == 0x20_0000,
        two_to(44) == 0x1000_0000_0000,
        two_to(46) == 0x4000_0000_0000,
        two_to(48) == 0x1_0000_0000_0000,
        two_to(51) == 0x8_0000_0000_0000,
        two_to(52) == 0x10_0000_0000_0000,
        two_to(53) == 0x20_0000_0000_0000,
        two_to(60) == 0x1000_0000_0000_0000,
        two_to(27) == 0x800_0000,
        two_to(42) == 0x40000000000,
        two_to(47) == 0x800000000000,
        two_to(49) == 0x2000000000000,
        two_to(50) == 0x4000000000000,
        two_to(54) == 0x40000000000000,
        two_to(57) == 0x200000000000000,
        two_to(58) == 0x400000000000000,
        two_to(59) == 0x800000000000000,
        two_to(62) == 0x4000000000000000,
        two_to(64) == 0x10000000000000000,
{
    vstd::arithmetic::power2::lemma2_to64();
    vstd::arithmetic::power2::lemma2_to64_rest();
    lemma_two_to(21);
    lemma_two_to(44);
    lemma_two_to(46);
    lemma_two_to(48);
    lemma_two_to(51);
    lemma_two_to(52);
    lemma_two_to(53);
    lemma_two_to(60);
    lemma_two_to(27);
    lemma_two_to(42);
    lemma_two_to(47);
    lemma_two_to(49);
    lemma_two_to(50);
    lemma_two_to(54);
    lemma_two_to(57);
    lemma_two_to(58);
    lemma_two_to(59);
    lemma_two_to(62);
    lemma_two_to(64);
}

/// The whole parts of one and of the largest integer of 32 bits.
pub proof fn lemma_whole_ends()
    ensures
        (Real { bits: ONE_BITS }).whole_u32() == 1,
        (Real { bits: 0x41ef_ffff_ffe0_0000 }).whole_u32() == 4_294_967_295,
        is_about(Real { bits: ONE_BITS }, 1, 1),
        is_about(Real { bits: 0x41ef_ffff_ffe0_0000 }, 4_294_967_295, 1),
{
    lemma_powers_of_two();
    let one = Real { bits: ONE_BITS };
    let most = Real { bits: 0x41ef_ffff_ffe0_0000 };
    law_whole_part_is_below(one);
    law_whole_part_is_below(most);
    let a = one.whole_u32();
    let b = most.whole_u32();
    assert(a == 1) by (nonlinear_arith)
        requires
            a * 0x10_0000_0000_0000 <= 0x10_0000_0000_0000 < (a + 1) * 0x10_0000_0000_0000,
    ;
    assert(b == 4_294_967_295) by (nonlinear_arith)
        requires
            b * 0x20_0000 <= 0x1f_ffff_ffe0_0000 < (b + 1) * 0x20_0000,
    ;
}

/// The order is that of the encoding: positive numbers go up with their bits, negative
/// ones go down, every negative number but zero is below every positive one, and both
/// zeros are the same number. What is not a number is in no order.
pub proof fn law_order_follows_the_encoding(a: u64, b: u64)
    requires
        a <= 0x7ff0_0000_0000_0000,
        b <= 0x7ff0_0000_0000_0000,
    ensures
        ({
            let x = Real { bits: a };
            let y = Real { bits: b };
            let minus_x = Real { bits: (a + 0x8000_0000_0000_0000) as u64 };
            let minus_y = Real { bits: (b + 0x8000_0000_0000_0000) as u64 };
            &&& x.lt(y) <==> a < b
            &&& x.le(y) <==> a <= b
            &&& x.same(y) <==> a == b
            &&& minus_x.lt(minus_y) <==> a > b
            &&& minus_x.le(minus_y) <==> a >= b
            &&& minus_x.le(y)
            &&& minus_x.lt(y) <==> a > 0 || b > 0
            &&& minus_x.same(y) <==> a == 0 && b == 0
            &&& x.negated() == minus_x
            &&& x.finite() <==> a < 0x7ff0_0000_0000_0000
            &&& minus_x.finite() <==> x.finite()
            &&& x.finite_positive() <==> 0 < a < 0x7ff0_0000_0000_0000
            &&& !minus_x.finite_positive()
        }),
{
}

/// A number whose exponent is all ones and whose fraction is not zero is not a number,
/// and no other. It is neither below, nor at, nor above any number.
pub proof fn law_unordered_numbers(x: Real, y: Real)
    ensures
        x.nan() <==> x.bits / 0x10_0000_0000_0000 % 2048 == 2047 && x.bits % 0x10_0000_0000_0000
            != 0,
        x.nan() ==> !x.lt(y) && !x.le(y) && !y.lt(x) && !y.le(x) && !x.same(y) && !y.same(x),
{
}

} // verus!
