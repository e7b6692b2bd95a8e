//! Decisions on the numbers of a fit: the extent of a series, its largest
//! magnitude, the coefficient of determination where nothing varies, and
//! whether the holds of a voltage run agree with the calibrator.

use vstd::prelude::*;
use crate::binary64;
use crate::binary64::{Real, INFINITE, SIGN};
use super::channels::{CalibrationChannel, CalibrationKind};

verus! {

/// The smallest and the largest number of a series.
#[derive(Debug, Clone, Copy, PartialEq, Eq, Structural)]
pub struct Extent {
    pub min: Real,
    pub max: Real,
}

/// Whether `m` is the smallest number of a series, or infinite where the series
/// holds no number.
pub open spec fn is_least(values: Seq<Real>, m: Real) -> bool {
    &&& !m.nan()
    &&& forall|i: int| 0 <= i < values.len() && !(#[trigger] values[i]).nan() ==> m.le(values[i])
    &&& m.bits == INFINITE || values.contains(m)
}

/// Whether `m` is the largest number of a series, or negative infinite where the
/// series holds no number.
pub open spec fn is_greatest(values: Seq<Real>, m: Real) -> bool {
    &&& !m.nan()
    &&& forall|i: int| 0 <= i < values.len() && !(#[trigger] values[i]).nan() ==> values[i].le(m)
    &&& m.bits == INFINITE + SIGN || values.contains(m)
}

/// The smallest and the largest number of a series, leaving out what is not a
/// number.
pub fn extent(values: &[Real]) -> (r: Extent)
    ensures
        is_least(values@, r.min),
        is_greatest(values@, r.max),
{
    let mut min = Real::from_bits(INFINITE);
    let mut max = Real::from_bits(INFINITE + SIGN);
    let mut i: usize = 0;
    while i < values.len()
        invariant
            i <= values@.len(),
            is_least(values@.take(i as int), min),
            is_greatest(values@.take(i as int), max),
        decreases values@.len() - i,
    {
        let x = values[i];
        let ghost before = values@.take(i as int);
        let ghost after = values@.take(i + 1);
        assert(after =~= before.push(x));
        assert(after[i as int] == x);
        assert forall|m: Real| before.contains(m) implies after.contains(m) by {
            let k = choose|k: int| 0 <= k < before.len() && before[k] == m;
            assert(after[k] == m);
        }
        assert forall|k: int| 0 <= k < before.len() implies after[k] == #[trigger] before[k] by {}
        let less = x.less(min);
        let more = max.less(x);
        assert forall|k: int|
            0 <= k < after.len() && !(#[trigger] after[k]).nan() implies if less {
            x.le(after[k])
        } else {
            min.le(after[k])
        } by {
            if k < i {
                assert(!before[k].nan());
            }
        }
        assert forall|k: int|
            0 <= k < after.len() && !(#[trigger] after[k]).nan() implies if more {
            after[k].le(x)
        } else {
            after[k].le(max)
        } by {
            if k < i {
                assert(!before[k].nan());
            }
        }
        if less {
            min = x;
        }
        if more {
            max = x;
        }
        i = i + 1;
    }
    assert(values@.take(values@.len() as int) =~= values@);
    Extent { min, max }
}

/// Whether `m` is the largest magnitude of a series, or zero where the series
/// holds no number.
pub open spec fn is_greatest_magnitude(values: Seq<Real>, m: Real) -> bool {
    &&& !m.nan() && !m.negative()
    &&& forall|i: int|
        0 <= i < values.len() && !(#[trigger] values[i]).nan() ==> values[i].magnitude()
            <= m.magnitude()
    &&& m == binary64::zero() || exists|i: int|
        0 <= i < values.len() && (#[trigger] values[i]).magnitude() == m.magnitude()
}

/// The largest magnitude of a series, leaving out what is not a number.
pub fn largest_magnitude(values: &[Real]) -> (m: Real)
    ensures
        is_greatest_magnitude(values@, m),
{
    let mut m = Real::zero();
    let mut i: usize = 0;
    while i < values.len()
        invariant
            i <= values@.len(),
            is_greatest_magnitude(values@.take(i as int), m),
        decreases values@.len() - i,
    {
        let ghost before = values@.take(i as int);
        let ghost after = values@.take(i + 1);
        assert(after[i as int] == values[i as int]);
        assert forall|k: int| 0 <= k < before.len() implies after[k] == #[trigger] before[k] by {}
        let magnitude = Real::from_bits(values[i].bits % SIGN);
        let more = m.less(magnitude);
        assert forall|k: int|
            0 <= k < after.len() && !(#[trigger] after[k]).nan() implies after[k].magnitude() <= if more {
            magnitude.magnitude()
        } else {
            m.magnitude()
        } by {
            if k < i {
                assert(!before[k].nan());
            }
        }
        if more {
            m = magnitude;
        } else if m != Real::zero() {
            let ghost k = choose|k: int|
                0 <= k < before.len() && (#[trigger] before[k]).magnitude() == m.magnitude();
            assert(after[k].magnitude() == m.magnitude());
        }
        i = i + 1;
    }
    assert(values@.take(values@.len() as int) =~= values@);
    m
}

/// The bits of 1.
pub const ONE_BITS: u64 = 0x3ff0_0000_0000_0000;

/// The coefficient of determination of a fit, from the sums of squares of the
/// residuals and of the fitted values about their mean. `explained` is one less
/// their quotient, which is what holds where the values vary; else the fit is
/// perfect or worthless.
pub fn r2_for_residuals(ss_residual: Real, ss_total: Real, explained: Real) -> (r: Real)
    ensures
        r == if binary64::zero().lt(ss_total) {
            explained
        } else if ss_residual.same(binary64::zero()) {
            Real { bits: ONE_BITS }
        } else {
            binary64::zero()
        },
{
    if Real::zero().less(ss_total) {
        explained
    } else if ss_residual.equals(Real::zero()) {
        Real::from_bits(ONE_BITS)
    } else {
        Real::zero()
    }
}

/// How far the mean of a hold is from its reference, and how far it may be.
#[derive(Debug, Clone, Copy, PartialEq, Eq, Structural)]
pub struct HoldDeviation {
    pub deviation_v: Real,
    pub accuracy_v: Real,
}

/// Tests whether no hold deviates by more than the calibrator's accuracy.
pub fn holds_within_calibrator_accuracy(holds: &[HoldDeviation]) -> (r: bool)
    ensures
        r == forall|i: int|
            0 <= i < holds@.len() ==> !(#[trigger] holds@[i]).accuracy_v.lt(holds@[i].deviation_v),
{
    let mut i: usize = 0;
    while i < holds.len()
        invariant
            i <= holds@.len(),
            forall|k: int|
                0 <= k < i ==> !(#[trigger] holds@[k]).accuracy_v.lt(holds@[k].deviation_v),
        decreases holds@.len() - i,
    {
        if holds[i].accuracy_v.less(holds[i].deviation_v) {
            return false;
        }
        i = i + 1;
    }
    true
}

/// The bits of the distance from 1 to the next larger number.
pub const EPSILON_BITS: u64 = 0x3cb0_0000_0000_0000;

/// Checks that the measured voltages of a thermocouple run vary. `spread` is the
/// distance between the smallest and the largest.
pub fn check_variation(spread: Real) -> (r: Result<(), String>)
    ensures
        match r {
            Ok(()) => !spread.le(Real { bits: EPSILON_BITS }),
            Err(e) => spread.le(Real { bits: EPSILON_BITS }) && e@
                == "Thermocouple voltage fit requires variation in measured thermocouple voltage"@,
        },
{
    if spread.at_most(Real::from_bits(EPSILON_BITS)) {
        Err(
            "Thermocouple voltage fit requires variation in measured thermocouple voltage".to_owned(),
        )
    } else {
        Ok(())
    }
}

impl CalibrationChannel {
    /// Accuracy of the calibrator at a reference, in displayed units.
    /// `voltage_accuracy_v` is that of a voltage reading there.
    pub fn error_accuracy_limit_at_reference(self, voltage_accuracy_v: Real) -> (r: Real)
        ensures
            r == match self.kind {
                CalibrationKind::Voltage => voltage_accuracy_v,
                _ => self.error_limit(),
            },
    {
        match self.kind {
            CalibrationKind::Voltage => voltage_accuracy_v,
            _ => self.error_accuracy_limit(),
        }
    }

    /// Accuracy of the calibrator at a reference, in the units of the residual.
    /// `voltage_accuracy_v` is that of a voltage reading there.
    pub fn residual_accuracy_limit_at_reference(self, voltage_accuracy_v: Real) -> (r: Real)
        ensures
            r == match self.kind {
                CalibrationKind::Voltage => voltage_accuracy_v,
                _ => self.residual_limit(),
            },
    {
        match self.kind {
            CalibrationKind::Voltage => voltage_accuracy_v,
            _ => self.residual_accuracy_limit(),
        }
    }
}

} // verus!
