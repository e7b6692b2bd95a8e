//! Texts that the procedure shows and writes, and the references that its
//! samples are matched with. Numbers come in as they stand in the texts.

use vstd::prelude::*;
use crate::binary64;
use crate::binary64::Real;
use crate::text;
use crate::text::{push_nat, trim};
use super::channels;
use super::channels::{CalibrationChannel, CalibrationKind};
use super::procedure::VOLTAGE_HOLD_COUNT;

verus! {

/// The numbers of a linear fit, in nine digits.
#[derive(Debug)]
pub struct FitNumbers {
    pub constant: String,
    pub slope: String,
    pub r2: String,
}

/// The numbers of a temperature error fit. Center and scale are in six digits.
#[derive(Debug)]
pub struct TemperatureFitNumbers {
    pub constant: String,
    pub slope: String,
    pub center: String,
    pub scale: String,
    pub r2: String,
}

/// The text of a voltage fit.
pub open spec fn voltage_fit_text(heading: Seq<char>, fit: FitNumbers) -> Seq<char> {
    heading + ": expected = "@ + fit.constant@ + " + "@ + fit.slope@ + " * measured, R^2 = "@
        + fit.r2@
}

/// The text of a temperature error fit.
pub open spec fn temperature_fit_text(fit: TemperatureFitNumbers) -> Seq<char> {
    "Temperature error fit: error_K = "@ + fit.constant@ + " + "@ + fit.slope@ + " * ((T_K - "@
        + fit.center@ + ") / "@ + fit.scale@ + "), R^2 = "@ + fit.r2@ + "; "@
}

/// The label of a fit in plots.
pub fn fit_label(
    channel: CalibrationChannel,
    fit: &FitNumbers,
    temperature: Option<&TemperatureFitNumbers>,
) -> (s: String)
    ensures
        s@ == match temperature {
            Some(t) => temperature_fit_text(*t) + voltage_fit_text(
                channels::fit_heading_of(channel.kind),
                *fit,
            ),
            None => voltage_fit_text(channels::fit_heading_of(channel.kind), *fit),
        },
{
    let mut v = channel.fit_heading().to_owned();
    v.push_str(": expected = ");
    v.push_str(fit.constant.as_str());
    v.push_str(" + ");
    v.push_str(fit.slope.as_str());
    v.push_str(" * measured, R^2 = ");
    v.push_str(fit.r2.as_str());
    match temperature {
        None => v,
        Some(t) => {
            let mut s = "Temperature error fit: error_K = ".to_owned();
            s.push_str(t.constant.as_str());
            s.push_str(" + ");
            s.push_str(t.slope.as_str());
            s.push_str(" * ((T_K - ");
            s.push_str(t.center.as_str());
            s.push_str(") / ");
            s.push_str(t.scale.as_str());
            s.push_str("), R^2 = ");
            s.push_str(t.r2.as_str());
            s.push_str("; ");
            s.push_str(v.as_str());
            s
        },
    }
}

/// The label of the cold junction in plots of thermocouple channels: the
/// temperature of the calibrator in three digits, the temperature offset in six
/// and the voltage offset in nine. Other channels have none.
pub fn cold_junction_label(
    kind: CalibrationKind,
    calibrator_k: &str,
    temperature_offset_k: &str,
    voltage_offset_v: &str,
) -> (r: Option<String>)
    ensures
        match r {
            None => kind != CalibrationKind::Thermocouple,
            Some(s) => kind == CalibrationKind::Thermocouple && s@
                == "Cold junction: calibrator = "@ + calibrator_k@ + " K, temperature offset = "@
                + temperature_offset_k@ + " K, RTD voltage offset = "@ + voltage_offset_v@ + " V"@,
        },
{
    if kind != CalibrationKind::Thermocouple {
        return None;
    }
    let mut s = "Cold junction: calibrator = ".to_owned();
    s.push_str(calibrator_k);
    s.push_str(" K, temperature offset = ");
    s.push_str(temperature_offset_k);
    s.push_str(" K, RTD voltage offset = ");
    s.push_str(voltage_offset_v);
    s.push_str(" V");
    Some(s)
}

/// The prompt for one hold of a voltage channel. The target is in six digits.
pub fn hold_prompt(hold_idx: usize, label: &str, target_v: &str) -> (s: String)
    requires
        hold_idx < VOLTAGE_HOLD_COUNT,
    ensures
        s@ == "Hold "@ + text::nat_text((hold_idx + 1) as nat) + "/"@ + text::nat_text(
            VOLTAGE_HOLD_COUNT as nat,
        ) + " for "@ + label@ + ": tune the signal generator to about "@ + target_v@
            + " V. When stable, enter the Fluke 707 measured voltage in V and press Enter."@,
{
    let mut s = "Hold ".to_owned();
    push_nat(&mut s, (hold_idx + 1) as u128);
    s.push_str("/");
    push_nat(&mut s, VOLTAGE_HOLD_COUNT as u128);
    s.push_str(" for ");
    s.push_str(label);
    s.push_str(": tune the signal generator to about ");
    s.push_str(target_v);
    s.push_str(" V. When stable, enter the Fluke 707 measured voltage in V and press Enter.");
    s
}

/// What is shown while a hold is recorded. The duration is in one digit, the
/// reference in nine.
pub fn recording_text(hold_idx: usize, seconds: &str, reference_v: &str) -> (s: String)
    requires
        hold_idx < VOLTAGE_HOLD_COUNT,
    ensures
        s@ == "Recording hold "@ + text::nat_text((hold_idx + 1) as nat) + "/"@ + text::nat_text(
            VOLTAGE_HOLD_COUNT as nat,
        ) + " for "@ + seconds@ + " s at reference "@ + reference_v@ + " V."@,
{
    let mut s = "Recording hold ".to_owned();
    push_nat(&mut s, (hold_idx + 1) as u128);
    s.push_str("/");
    push_nat(&mut s, VOLTAGE_HOLD_COUNT as u128);
    s.push_str(" for ");
    s.push_str(seconds);
    s.push_str(" s at reference ");
    s.push_str(reference_v);
    s.push_str(" V.");
    s
}

/// Takes the voltage that the operator entered. `number` is the trimmed line read
/// as a number, or why it is none.
pub fn entered_voltage(label: &str, line: &str, number: Result<Real, String>) -> (r: Result<
    Real,
    String,
>)
    ensures
        match number {
            Ok(x) => r == Ok::<Real, String>(x),
            Err(why) => r matches Err(e) && e@ == "Expected Fluke voltage in V for "@ + label@
                + ", got '"@ + text::trimmed(line@) + "': "@ + why@,
        },
{
    match number {
        Ok(x) => Ok(x),
        Err(why) => {
            let mut e = "Expected Fluke voltage in V for ".to_owned();
            e.push_str(label);
            e.push_str(", got '");
            e.push_str(trim(line).as_str());
            e.push_str("': ");
            e.push_str(why.as_str());
            Err(e)
        },
    }
}

/// The header of the file of accepted samples.
pub fn error_samples_header() -> (s: String)
    ensures
        s@ == "time_s,reference_a,measured_a,error_a\n"@,
{
    "time_s,reference_a,measured_a,error_a\n".to_owned()
}

/// One line of the file of accepted samples: the time in nine digits, the others
/// in twelve.
pub fn error_samples_line(time_s: &str, reference_a: &str, measured_a: &str, error_a: &str) -> (s:
    String)
    ensures
        s@ == time_s@ + ","@ + reference_a@ + ","@ + measured_a@ + ","@ + error_a@ + "\n"@,
{
    let mut s = time_s.to_owned();
    s.push_str(",");
    s.push_str(reference_a);
    s.push_str(",");
    s.push_str(measured_a);
    s.push_str(",");
    s.push_str(error_a);
    s.push_str("\n");
    s
}

/// What is shown of a processed run: steps, accepted samples and errors in three
/// digits.
pub fn result_line(
    channel: CalibrationChannel,
    steps: usize,
    accepted: usize,
    rmse: &str,
    mean_error: &str,
    max_abs_error: &str,
    units: &str,
) -> (s: String)
    ensures
        s@ == channel.label@ + ": steps="@ + text::nat_text(steps as nat) + " accepted_samples="@
            + text::nat_text(accepted as nat) + " rmse="@ + rmse@ + " "@ + units@ + " mean_error="@
            + mean_error@ + " "@ + units@ + " max_abs_error="@ + max_abs_error@ + " "@ + units@,
{
    let mut s = channel.label.to_owned();
    s.push_str(": steps=");
    push_nat(&mut s, steps as u128);
    s.push_str(" accepted_samples=");
    push_nat(&mut s, accepted as u128);
    s.push_str(" rmse=");
    s.push_str(rmse);
    s.push_str(" ");
    s.push_str(units);
    s.push_str(" mean_error=");
    s.push_str(mean_error);
    s.push_str(" ");
    s.push_str(units);
    s.push_str(" max_abs_error=");
    s.push_str(max_abs_error);
    s.push_str(" ");
    s.push_str(units);
    s
}

/// The bits of the reference currents of the auto-step sequence: 0, 5, 10, 15 and
/// 20 mA.
pub open spec fn step_reference_bits() -> Seq<u64> {
    seq![
        0,
        0x3f747ae147ae147b,
        0x3f847ae147ae147b,
        0x3f8eb851eb851eb8,
        0x3f947ae147ae147b,
    ]
}

/// The reference currents of the auto-step sequence.
pub fn step_reference_values() -> (v: Vec<Real>)
    ensures
        v@ == step_reference_bits().map_values(|bits: u64| Real { bits }),
{
    let v = vec![
        Real::from_bits(0),
        Real::from_bits(0x3f747ae147ae147b),
        Real::from_bits(0x3f847ae147ae147b),
        Real::from_bits(0x3f8eb851eb851eb8),
        Real::from_bits(0x3f947ae147ae147b),
    ];
    assert(v@ =~= step_reference_bits().map_values(|bits: u64| Real { bits }));
    v
}

/// The bits of 1.5 mA.
pub const STEP_DETECTION_TOLERANCE_BITS: u64 = 0x3f589374bc6a7efa;

/// The bits of 5 K.
pub const TEMPERATURE_TOLERANCE_BITS: u64 = 0x4014000000000000;

/// The bits of the lowest RTD reference in kelvin.
pub const RTD_MIN_BITS: u64 = 0x4052499999999998;

/// The bits of the highest RTD reference in kelvin.
pub const RTD_MAX_BITS: u64 = 0x4090c4999999999a;

/// The bits of the lowest thermocouple reference in kelvin.
pub const TC_MIN_BITS: u64 = 0x404f933333333330;

/// The bits of the highest thermocouple reference in kelvin.
pub const TC_MAX_BITS: u64 = 0x4097f4999999999a;

/// The index of the smallest of some distances, the first of equal ones.
/// Distances are not negative, so that their bits order them.
pub open spec fn nearest(distances: Seq<Real>) -> int
    decreases distances.len(),
{
    if distances.len() <= 1 {
        0
    } else {
        let before = nearest(distances.drop_last());
        if distances.last().bits < distances[before].bits {
            distances.len() - 1
        } else {
            before
        }
    }
}

proof fn lemma_nearest(distances: Seq<Real>)
    requires
        distances.len() > 0,
    ensures
        0 <= nearest(distances) < distances.len(),
        forall|i: int|
            0 <= i < distances.len() ==> distances[nearest(distances)].bits <= (
            #[trigger] distances[i]).bits,
        forall|i: int|
            0 <= i < nearest(distances) ==> distances[nearest(distances)].bits < (
            #[trigger] distances[i]).bits,
    decreases distances.len(),
{
    if distances.len() > 1 {
        let front = distances.drop_last();
        lemma_nearest(front);
        assert forall|i: int| 0 <= i < front.len() implies front[nearest(front)].bits <= (
        #[trigger] distances[i]).bits by {
            assert(front[i] == distances[i]);
        }
        assert forall|i: int| 0 <= i < nearest(front) implies front[nearest(front)].bits < (
        #[trigger] distances[i]).bits by {
            assert(front[i] == distances[i]);
        }
    }
}

/// The step that a current belongs to: the nearest reference, where it is near
/// enough. `distances` are those of the current to the references.
pub fn nearest_step(distances: &[Real]) -> (r: Option<usize>)
    requires
        distances.len() > 0,
    ensures
        match r {
            Some(i) => i == nearest(distances@) && i < distances@.len() && distances@[i as int].le(
                Real { bits: STEP_DETECTION_TOLERANCE_BITS },
            ),
            None => !distances@[nearest(distances@)].le(
                Real { bits: STEP_DETECTION_TOLERANCE_BITS },
            ),
        },
{
    let mut best: usize = 0;
    let mut i: usize = 1;
    assert(distances@.take(1).len() == 1);
    while i < distances.len()
        invariant
            1 <= i <= distances@.len(),
            best < i,
            best == nearest(distances@.take(i as int)),
        decreases distances@.len() - i,
    {
        assert(distances@.take(i + 1).drop_last() =~= distances@.take(i as int));
        if distances[i].to_bits() < distances[best].to_bits() {
            best = i;
        }
        i = i + 1;
    }
    assert(distances@.take(distances@.len() as int) =~= distances@);
    if distances[best].at_most(Real::from_bits(STEP_DETECTION_TOLERANCE_BITS)) {
        Some(best)
    } else {
        None
    }
}

/// Whether a temperature lies in a range.
pub open spec fn between(x: Real, min_bits: u64, max_bits: u64) -> bool {
    (Real { bits: min_bits }).le(x) && x.le(Real { bits: max_bits })
}

/// The bits of the temperature range of a kind of channel.
pub open spec fn range_bits(kind: CalibrationKind) -> Option<(u64, u64)> {
    match kind {
        CalibrationKind::Rtd => Some((RTD_MIN_BITS, RTD_MAX_BITS)),
        CalibrationKind::Thermocouple => Some((TC_MIN_BITS, TC_MAX_BITS)),
        _ => None,
    }
}

/// The reference that a temperature belongs to. `reference` is the nearest
/// multiple of the step, and `distance` how far it is from the measurement. Only
/// channels that measure temperature have one.
pub fn temperature_reference(kind: CalibrationKind, measured: Real, reference: Real, distance: Real) -> (r:
    Option<Real>)
    ensures
        r == match range_bits(kind) {
            None => None,
            Some((min, max)) => if between(measured, min, max) && between(reference, min, max)
                && distance.le(Real { bits: TEMPERATURE_TOLERANCE_BITS }) {
                Some(reference)
            } else {
                None
            },
        },
{
    let (min, max) = match kind {
        CalibrationKind::Rtd => (RTD_MIN_BITS, RTD_MAX_BITS),
        CalibrationKind::Thermocouple => (TC_MIN_BITS, TC_MAX_BITS),
        _ => {
            return None;
        },
    };
    let lo = Real::from_bits(min);
    let hi = Real::from_bits(max);
    if lo.at_most(measured) && measured.at_most(hi) && lo.at_most(reference) && reference.at_most(
        hi,
    ) && distance.at_most(Real::from_bits(TEMPERATURE_TOLERANCE_BITS)) {
        Some(reference)
    } else {
        None
    }
}

/// The nearest reference is no farther than any other one, and the first of those
/// that are equally near.
pub proof fn law_nearest_reference_is_nearest(distances: Seq<Real>, i: int)
    requires
        0 <= i < distances.len(),
    ensures
        0 <= nearest(distances) < distances.len(),
        distances[nearest(distances)].bits <= distances[i].bits,
        i < nearest(distances) ==> distances[nearest(distances)].bits < distances[i].bits,
{
    lemma_nearest(distances);
}

/// The reference currents of the auto-step sequence go up in steps of 5 mA from zero.
pub proof fn law_references_step_by_five_milliampere(i: int)
    requires
        0 < i < 5,
    ensures
        step_reference_bits().len() == 5,
        step_reference_bits()[0] == 0,
        binary64::is_about(Real { bits: step_reference_bits()[i] }, 5 * i, 1000),
{
    binary64::lemma_powers_of_two();
    let bits = step_reference_bits();
    assert(binary64::is_about(Real { bits: bits[1] }, 5, 1000));
    assert(binary64::is_about(Real { bits: bits[2] }, 10, 1000));
    assert(binary64::is_about(Real { bits: bits[3] }, 15, 1000));
    assert(binary64::is_about(Real { bits: bits[4] }, 20, 1000));
    assert(i == 1 || i == 2 || i == 3 || i == 4);
}

/// Channels that measure temperature have a range, from -200 to 800 degrees Celsius
/// for RTDs and from -210 to 1260 for thermocouples, in kelvin.
pub proof fn law_temperature_ranges(kind: CalibrationKind)
    ensures
        range_bits(kind) is Some <==> kind == CalibrationKind::Rtd || kind
            == CalibrationKind::Thermocouple,
        range_bits(kind) matches Some((min, max)) ==> {
            &&& kind == CalibrationKind::Rtd ==> binary64::is_about(
                Real { bits: min },
                7_314_999_999_999_998,
                100_000_000_000_000,
            ) && binary64::is_about(Real { bits: max }, 107_315, 100)
            &&& kind == CalibrationKind::Thermocouple ==> binary64::is_about(
                Real { bits: min },
                6_314_999_999_999_998,
                100_000_000_000_000,
            ) && binary64::is_about(Real { bits: max }, 153_315, 100)
        },
        binary64::is_about(Real { bits: TEMPERATURE_TOLERANCE_BITS }, 5, 1),
        binary64::is_about(Real { bits: STEP_DETECTION_TOLERANCE_BITS }, 15, 10_000),
{
    binary64::lemma_powers_of_two();
}

/// A temperature lies in a range exactly where it is neither below nor above it.
pub proof fn law_temperatures_in_range_are_beyond_no_end(x: Real, min_bits: u64, max_bits: u64)
    requires
        !x.nan(),
        !(Real { bits: min_bits }).nan(),
        !(Real { bits: max_bits }).nan(),
    ensures
        between(x, min_bits, max_bits) <==> !x.lt(Real { bits: min_bits }) && !(Real {
            bits: max_bits,
        }).lt(x),
{
    binary64::law_order(Real { bits: min_bits }, x, x);
    binary64::law_order(x, Real { bits: max_bits }, x);
}

} // verus!
