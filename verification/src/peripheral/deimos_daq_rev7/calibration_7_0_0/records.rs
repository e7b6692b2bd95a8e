//! What a processed run is reported as: fit inputs, plot series, the
//! calibration record and its line in the summary.

use vstd::prelude::*;
use crate::binary64;
use crate::binary64::Real;
use crate::text;
use crate::text::push_nat;
use super::capture::{ChannelCapture, MODEL_NAME};
use super::channels;
use super::channels::{CalibrationChannel, CalibrationKind};
use super::segments::{AcceptedSample, ColdJunction, StepSegment};

verus! {

/// How the controller waits for the next cycle.
#[derive(Debug, Clone, Copy, PartialEq, Eq, Structural)]
pub enum LoopMethod {
    /// Spins for the lowest jitter.
    Performant,
    /// Sleeps where it can.
    Efficient,
}

/// The settings of a controller that records one channel.
#[derive(Debug)]
pub struct CaptureContext {
    pub op_name: String,
    pub op_dir: String,
    pub dt_ns: u32,
    pub loop_method: LoopMethod,
    pub timeout_s: u64,
}

/// The settings of a controller that records one channel: a hundred cycles per
/// second until the channel's longest recording is over.
pub fn controller_context(op_name: String, op_dir: String, channel: CalibrationChannel) -> (c:
    CaptureContext)
    ensures
        c.op_name == op_name,
        c.op_dir == op_dir,
        c.dt_ns == 10_000_000,
        c.loop_method == LoopMethod::Performant,
        c.timeout_s == match channel.kind {
            CalibrationKind::Current4To20 => 90,
            CalibrationKind::Rtd => 240,
            CalibrationKind::Thermocouple => 240,
            CalibrationKind::Voltage => 300int,
        },
{
    CaptureContext {
        op_name,
        op_dir,
        dt_ns: 10_000_000,
        loop_method: LoopMethod::Performant,
        timeout_s: channel.capture_seconds(),
    }
}

/// Checks that a data file belongs to the board that is processed.
pub fn check_serial_number(path: &str, found: u64, expected: u64) -> (r: Result<(), String>)
    ensures
        match r {
            Ok(()) => found == expected,
            Err(e) => found != expected && e@ == path@ + " has serial number "@ + text::nat_text(
                found as nat,
            ) + ", expected "@ + text::nat_text(expected as nat),
        },
{
    if found == expected {
        return Ok(());
    }
    let mut e = path.to_owned();
    e.push_str(" has serial number ");
    push_nat(&mut e, found as u128);
    e.push_str(", expected ");
    push_nat(&mut e, expected as u128);
    Err(e)
}

/// Checks that any sample of a run was accepted.
pub fn check_accepted(channel: CalibrationChannel, samples: &[AcceptedSample]) -> (r: Result<
    (),
    String,
>)
    ensures
        match r {
            Ok(()) => samples@.len() > 0,
            Err(e) => samples@.len() == 0 && e@
                == "No accepted middle-half step samples found for "@ + channel.label@,
        },
{
    if samples.len() > 0 {
        return Ok(());
    }
    let mut e = "No accepted middle-half step samples found for ".to_owned();
    e.push_str(channel.label);
    Err(e)
}

/// The cold-junction values of a thermocouple run.
#[derive(Debug, Clone, Copy, PartialEq, Eq, Structural)]
pub struct ColdJunctionInputs {
    pub calibrator_temperature_k: Real,
    pub offset_k: Real,
}

/// What a thermocouple run lacks for its cold-junction record.
pub open spec fn cold_junction_gap(capture: ChannelCapture) -> Option<Seq<char>> {
    let start = "Thermocouple capture for "@ + capture.channel.label@;
    if capture.calibrator_cold_junction_temperature_k is None {
        Some(start + " is missing calibrator cold-junction temperature"@)
    } else if capture.board_cold_junction_offset_k is None {
        Some(start + " is missing cold-junction temperature offset"@)
    } else if capture.board_cold_junction_temperature_k@.len() == 0 {
        Some(start + " is missing board cold-junction temperature samples"@)
    } else {
        None
    }
}

/// The cold-junction values of a thermocouple run, or what it lacks for them.
pub fn cold_junction_inputs(capture: &ChannelCapture) -> (r: Result<ColdJunctionInputs, String>)
    ensures
        match r {
            Ok(v) => {
                &&& cold_junction_gap(*capture) is None
                &&& capture.calibrator_cold_junction_temperature_k == Some(
                    v.calibrator_temperature_k,
                )
                &&& capture.board_cold_junction_offset_k == Some(v.offset_k)
            },
            Err(e) => cold_junction_gap(*capture) == Some(e@),
        },
{
    let mut e = "Thermocouple capture for ".to_owned();
    e.push_str(capture.channel.label);
    let calibrator_temperature_k = match capture.calibrator_cold_junction_temperature_k {
        Some(x) => x,
        None => {
            e.push_str(" is missing calibrator cold-junction temperature");
            return Err(e);
        },
    };
    let offset_k = match capture.board_cold_junction_offset_k {
        Some(x) => x,
        None => {
            e.push_str(" is missing cold-junction temperature offset");
            return Err(e);
        },
    };
    if capture.board_cold_junction_temperature_k.len() == 0 {
        e.push_str(" is missing board cold-junction temperature samples");
        return Err(e);
    }
    Ok(ColdJunctionInputs { calibrator_temperature_k, offset_k })
}

/// One point of a thermocouple fit before the expected voltage is worked out.
#[derive(Debug, Clone, Copy, PartialEq, Eq, Structural)]
pub struct ThermocouplePoint {
    pub measured_voltage_v: Real,
    pub reference_k: Real,
    pub cold_junction: ColdJunction,
}

/// What the first incomplete sample of a thermocouple fit lacks.
pub open spec fn thermocouple_gap(samples: Seq<AcceptedSample>) -> Option<Seq<char>>
    decreases samples.len(),
{
    if samples.len() == 0 {
        None
    } else if samples[0].thermocouple_voltage_v is None {
        Some("Thermocouple voltage fit requires thermocouple_voltage_v samples"@)
    } else if samples[0].cold_junction is None {
        Some("Thermocouple voltage fit requires cold-junction temperature samples"@)
    } else {
        thermocouple_gap(samples.skip(1))
    }
}

/// The points of a thermocouple fit, or what the first incomplete sample lacks.
pub fn thermocouple_points(samples: &[AcceptedSample]) -> (r: Result<Vec<ThermocouplePoint>, String>)
    ensures
        match r {
            Ok(v) => {
                &&& thermocouple_gap(samples@) is None
                &&& v@.len() == samples@.len()
                &&& forall|i: int|
                    0 <= i < v@.len() ==> samples@[i].thermocouple_voltage_v == Some(
                        (#[trigger] v@[i]).measured_voltage_v,
                    ) && samples@[i].cold_junction == Some(v@[i].cold_junction)
                        && samples@[i].reference_a == v@[i].reference_k
            },
            Err(e) => thermocouple_gap(samples@) == Some(e@),
        },
{
    let mut v: Vec<ThermocouplePoint> = Vec::new();
    let mut i: usize = 0;
    assert(samples@.skip(0) =~= samples@);
    while i < samples.len()
        invariant
            i <= samples@.len(),
            v@.len() == i,
            thermocouple_gap(samples@) == thermocouple_gap(samples@.skip(i as int)),
            forall|k: int|
                0 <= k < v@.len() ==> samples@[k].thermocouple_voltage_v == Some(
                    (#[trigger] v@[k]).measured_voltage_v,
                ) && samples@[k].cold_junction == Some(v@[k].cold_junction)
                    && samples@[k].reference_a == v@[k].reference_k,
        decreases samples@.len() - i,
    {
        proof {
            assert(samples@.skip(i as int)[0] == samples@[i as int]);
            assert(samples@.skip(i as int).skip(1) =~= samples@.skip(i + 1));
        }
        let measured_voltage_v = match samples[i].thermocouple_voltage_v {
            Some(x) => x,
            None => {
                return Err(
                    "Thermocouple voltage fit requires thermocouple_voltage_v samples".to_owned(),
                );
            },
        };
        let cold_junction = match samples[i].cold_junction {
            Some(x) => x,
            None => {
                return Err(
                    "Thermocouple voltage fit requires cold-junction temperature samples".to_owned(),
                );
            },
        };
        v.push(
            ThermocouplePoint {
                measured_voltage_v,
                reference_k: samples[i].reference_a,
                cold_junction,
            },
        );
        i = i + 1;
    }
    Ok(v)
}

/// A plotted line with gaps.
#[derive(Debug)]
pub struct SteppedLine {
    pub times_s: Vec<Option<Real>>,
    pub values: Vec<Option<Real>>,
}

/// The line of the detected holds: for each segment its start and stop at the
/// displayed reference, and then a gap.
pub fn reference_steps(v: &[StepSegment], displayed: &[Real]) -> (line: SteppedLine)
    requires
        displayed@.len() == v@.len(),
        3 * v@.len() <= usize::MAX,
    ensures
        line.times_s@.len() == 3 * v@.len(),
        line.values@.len() == 3 * v@.len(),
        forall|k: int|
            0 <= k < v@.len() ==> {
                &&& line.times_s@[3 * k] == Some((#[trigger] v@[k]).start_time_s)
                &&& line.times_s@[3 * k + 1] == Some(v@[k].stop_time_s)
                &&& line.times_s@[3 * k + 2] is None
                &&& line.values@[3 * k] == Some(displayed@[k])
                &&& line.values@[3 * k + 1] == Some(displayed@[k])
                &&& line.values@[3 * k + 2] is None
            },
{
    let mut times_s: Vec<Option<Real>> = Vec::new();
    let mut values: Vec<Option<Real>> = Vec::new();
    let mut i: usize = 0;
    while i < v.len()
        invariant
            i <= v@.len(),
            displayed@.len() == v@.len(),
            times_s@.len() == 3 * i,
            values@.len() == 3 * i,
            forall|k: int|
                0 <= k < i ==> {
                    &&& times_s@[3 * k] == Some((#[trigger] v@[k]).start_time_s)
                    &&& times_s@[3 * k + 1] == Some(v@[k].stop_time_s)
                    &&& times_s@[3 * k + 2] is None
                    &&& values@[3 * k] == Some(displayed@[k])
                    &&& values@[3 * k + 1] == Some(displayed@[k])
                    &&& values@[3 * k + 2] is None
                },
        decreases v@.len() - i,
    {
        times_s.push(Some(v[i].start_time_s));
        times_s.push(Some(v[i].stop_time_s));
        times_s.push(None);
        values.push(Some(displayed[i]));
        values.push(Some(displayed[i]));
        values.push(None);
        i = i + 1;
    }
    SteppedLine { times_s, values }
}

/// Number of points on one edge of an accuracy band: two where the band covers
/// a single reference.
pub fn band_points(min_reference: Real, max_reference: Real) -> (n: usize)
    ensures
        n == if min_reference.same(max_reference) {
            2int
        } else {
            64
        },
{
    if min_reference.equals(max_reference) {
        2
    } else {
        64
    }
}

/// One point on the upper edge of an accuracy band.
#[derive(Debug, Clone, Copy, PartialEq, Eq, Structural)]
pub struct BandPoint {
    pub reference: Real,
    pub limit: Real,
}

/// A closed outline.
#[derive(Debug)]
pub struct Outline {
    pub x: Vec<Real>,
    pub y: Vec<Real>,
}

/// The references of an accuracy band's outline.
pub open spec fn band_x(upper: Seq<BandPoint>) -> Seq<Real> {
    let there = upper.map_values(|p: BandPoint| p.reference);
    there + there.reverse() + there.take(1)
}

/// The limits of an accuracy band's outline.
pub open spec fn band_y(upper: Seq<BandPoint>) -> Seq<Real> {
    let there = upper.map_values(|p: BandPoint| p.limit);
    let back = upper.map_values(|p: BandPoint| p.limit.negated());
    there + back.reverse() + there.take(1)
}

/// The outline of an accuracy band: along its upper edge, back along its lower
/// edge, which mirrors the upper one, and to the start.
pub fn accuracy_band_xy(upper: &[BandPoint]) -> (o: Outline)
    requires
        upper@.len() > 0,
    ensures
        o.x@ == band_x(upper@),
        o.y@ == band_y(upper@),
{
    let mut x: Vec<Real> = Vec::new();
    let mut y: Vec<Real> = Vec::new();
    let ghost xs = upper@.map_values(|p: BandPoint| p.reference);
    let ghost ys = upper@.map_values(|p: BandPoint| p.limit);
    let ghost back = upper@.map_values(|p: BandPoint| p.limit.negated());
    let mut i: usize = 0;
    while i < upper.len()
        invariant
            i <= upper@.len(),
            xs == upper@.map_values(|p: BandPoint| p.reference),
            ys == upper@.map_values(|p: BandPoint| p.limit),
            x@ == xs.take(i as int),
            y@ == ys.take(i as int),
        decreases upper@.len() - i,
    {
        x.push(upper[i].reference);
        y.push(upper[i].limit);
        assert(x@ =~= xs.take(i + 1));
        assert(y@ =~= ys.take(i + 1));
        i = i + 1;
    }
    assert(x@ =~= xs);
    assert(y@ =~= ys);
    let mut k: usize = upper.len();
    assert(x@ =~= xs + xs.reverse().take(0));
    assert(y@ =~= ys + back.reverse().take(0));
    while k > 0
        invariant
            k <= upper@.len(),
            xs == upper@.map_values(|p: BandPoint| p.reference),
            back == upper@.map_values(|p: BandPoint| p.limit.negated()),
            x@ == xs + xs.reverse().take(upper@.len() - k),
            y@ == ys + back.reverse().take(upper@.len() - k),
        decreases k,
    {
        k = k - 1;
        x.push(upper[k].reference);
        y.push(upper[k].limit.negate());
        assert(x@ =~= xs + xs.reverse().take(upper@.len() - k));
        assert(y@ =~= ys + back.reverse().take(upper@.len() - k));
    }
    x.push(upper[0].reference);
    y.push(upper[0].limit);
    assert(x@ =~= band_x(upper@));
    assert(y@ =~= band_y(upper@));
    Outline { x, y }
}

/// The outline of an accuracy band is closed and mirrored: it ends where it
/// began, and each reference stands at two limits that differ in sign alone.
pub proof fn law_band_is_closed_and_mirrored(upper: Seq<BandPoint>, i: int)
    requires
        0 <= i < upper.len(),
    ensures
        band_x(upper).len() == 2 * upper.len() + 1,
        band_y(upper).len() == 2 * upper.len() + 1,
        band_x(upper).last() == band_x(upper)[0],
        band_y(upper).last() == band_y(upper)[0],
        band_x(upper)[2 * upper.len() - 1 - i] == band_x(upper)[i],
        band_y(upper)[2 * upper.len() - 1 - i] == band_y(upper)[i].negated(),
{
    assert(band_x(upper)[2 * upper.len() - 1 - i] == upper[i].reference);
    assert(band_y(upper)[2 * upper.len() - 1 - i] == upper[i].limit.negated());
}

/// The unit of the errors in the summary, and the power of ten from base units to it.
pub fn summary_error_unit(kind: CalibrationKind) -> (r: (&'static str, u8))
    ensures
        match kind {
            CalibrationKind::Current4To20 => r.0@ == "uA"@ && r.1 == 6,
            CalibrationKind::Rtd => r.0@ == "K"@ && r.1 == 0,
            CalibrationKind::Thermocouple => r.0@ == "K"@ && r.1 == 0,
            CalibrationKind::Voltage => r.0@ == "V"@ && r.1 == 0,
        },
{
    match kind {
        CalibrationKind::Current4To20 => ("uA", 6),
        CalibrationKind::Rtd => ("K", 0),
        CalibrationKind::Thermocouple => ("K", 0),
        CalibrationKind::Voltage => ("V", 0),
    }
}

/// A linear fit in a normalized variable.
#[derive(Debug)]
pub struct NormalizedLinearFit {
    pub coefficients: Vec<Real>,
    pub r2: Real,
    pub x_center: Real,
    pub x_scale: Real,
}

/// The result of a fit that the record holds.
#[derive(Debug)]
pub struct FitSummary {
    pub coefficients: Vec<Real>,
    pub r2: Real,
    pub temperature_error_fit: Option<NormalizedLinearFit>,
}

/// The common part of a calibration record.
#[derive(Debug)]
pub struct CalibrationJsonCore {
    pub model: String,
    pub serial_number: u64,
    pub channel: String,
    pub signal_name: String,
    pub datestamp_utc: String,
    pub reference_resistor_ohm: Option<Real>,
    pub rtd_reference_current_a: Option<Real>,
    pub rtd_frontend_gain: Option<Real>,
    pub temperature_error_fit: Option<NormalizedLinearFit>,
    pub polynomial_order: usize,
    pub polynomial_coefficients: Vec<Real>,
    pub r2: Real,
    pub input_units: String,
    pub output_units: String,
    pub accepted_sample_count: usize,
    pub detected_step_count: usize,
}

/// The bits of 75 ohm, the shunt of the current inputs.
pub const REFERENCE_RESISTOR_BITS: u64 = 0x4052c00000000000;

/// The bits of 250 microampere, the excitation of the RTD inputs.
pub const RTD_REFERENCE_CURRENT_BITS: u64 = 0x3f30624dd2f1a9fc;

/// The bits of 25.7, the gain of the RTD frontend.
pub const RTD_FRONTEND_GAIN_BITS: u64 = 0x4039b33333333333;

/// Order of the fitted polynomial.
pub const VOLTAGE_FIT_ORDER: usize = 1;

fn constant_where(there: bool, bits: u64) -> (r: Option<Real>)
    ensures
        r == if there {
            Some(Real { bits })
        } else {
            None
        },
{
    if there {
        Some(Real::from_bits(bits))
    } else {
        None
    }
}

/// The common part of the calibration record of a run.
pub fn calibration_core(
    capture: &ChannelCapture,
    datestamp_utc: String,
    fit: FitSummary,
    accepted_sample_count: usize,
    detected_step_count: usize,
) -> (core: CalibrationJsonCore)
    ensures
        core.model@ == MODEL_NAME@,
        core.serial_number == capture.serial_number,
        core.channel@ == capture.channel.analog_input_name@,
        core.signal_name@ == match capture.channel.voltage_signal() {
            Some(name) => name,
            None => capture.channel.signal_name@,
        },
        core.datestamp_utc == datestamp_utc,
        core.reference_resistor_ohm == match capture.channel.kind {
            CalibrationKind::Current4To20 => Some(Real { bits: REFERENCE_RESISTOR_BITS }),
            _ => None,
        },
        core.rtd_reference_current_a == match capture.channel.kind {
            CalibrationKind::Rtd => Some(Real { bits: RTD_REFERENCE_CURRENT_BITS }),
            CalibrationKind::Thermocouple => Some(Real { bits: RTD_REFERENCE_CURRENT_BITS }),
            _ => None,
        },
        core.rtd_frontend_gain == match capture.channel.kind {
            CalibrationKind::Rtd => Some(Real { bits: RTD_FRONTEND_GAIN_BITS }),
            CalibrationKind::Thermocouple => Some(Real { bits: RTD_FRONTEND_GAIN_BITS }),
            _ => None,
        },
        core.temperature_error_fit == fit.temperature_error_fit,
        core.polynomial_order == VOLTAGE_FIT_ORDER,
        core.polynomial_coefficients == fit.coefficients,
        core.r2 == fit.r2,
        core.input_units@ == channels::fit_units_of(capture.channel.kind),
        core.output_units@ == channels::fit_units_of(capture.channel.kind),
        core.accepted_sample_count == accepted_sample_count,
        core.detected_step_count == detected_step_count,
{
    let current = capture.channel.kind == CalibrationKind::Current4To20;
    let rtd = capture.channel.kind == CalibrationKind::Rtd || capture.channel.kind
        == CalibrationKind::Thermocouple;
    CalibrationJsonCore {
        model: MODEL_NAME.to_owned(),
        serial_number: capture.serial_number,
        channel: capture.channel.analog_input_name.to_owned(),
        signal_name: capture.channel.calibration_signal_name().to_owned(),
        datestamp_utc,
        reference_resistor_ohm: constant_where(current, REFERENCE_RESISTOR_BITS),
        rtd_reference_current_a: constant_where(rtd, RTD_REFERENCE_CURRENT_BITS),
        rtd_frontend_gain: constant_where(rtd, RTD_FRONTEND_GAIN_BITS),
        temperature_error_fit: fit.temperature_error_fit,
        polynomial_order: VOLTAGE_FIT_ORDER,
        polynomial_coefficients: fit.coefficients,
        r2: fit.r2,
        input_units: capture.channel.fit_units().to_owned(),
        output_units: capture.channel.fit_units().to_owned(),
        accepted_sample_count,
        detected_step_count,
    }
}

/// The files that belong to a processed run.
#[derive(Debug)]
pub struct RunFiles {
    pub source: String,
    pub samples: String,
    pub plot_light: String,
    pub plot_dark: String,
    pub record: String,
}

/// The errors of a run, in the units of the summary.
#[derive(Debug, Clone, Copy)]
pub struct RunErrors {
    pub rmse: Real,
    pub mean_error: Real,
    pub max_abs_error: Real,
}

/// What the summary tells of a run.
#[derive(Debug)]
pub struct CalibrationSummaryRecord {
    pub source: String,
    pub channel_label: String,
    pub channel: String,
    pub signal_name: String,
    pub detected_step_count: usize,
    pub accepted_sample_count: usize,
    pub error_units: String,
    pub rmse: Real,
    pub mean_error: Real,
    pub max_abs_error: Real,
    pub polynomial_coefficients: Vec<Real>,
    pub r2: Real,
    pub temperature_error_fit: Option<NormalizedLinearFit>,
    pub input_units: String,
    pub output_units: String,
    pub samples_path: String,
    pub plot_light_path: String,
    pub plot_dark_path: String,
    pub calibration_record_path: String,
}

/// What the summary tells of a run on a channel.
pub fn summary_record(
    channel: CalibrationChannel,
    files: RunFiles,
    detected_step_count: usize,
    accepted_sample_count: usize,
    errors: RunErrors,
    fit: FitSummary,
) -> (r: CalibrationSummaryRecord)
    ensures
        r.source == files.source,
        r.channel_label@ == channel.label@,
        r.channel@ == channel.analog_input_name@,
        r.signal_name@ == match channel.voltage_signal() {
            Some(name) => name,
            None => channel.signal_name@,
        },
        r.detected_step_count == detected_step_count,
        r.accepted_sample_count == accepted_sample_count,
        r.error_units@ == match channel.kind {
            CalibrationKind::Current4To20 => "uA"@,
            CalibrationKind::Rtd => "K"@,
            CalibrationKind::Thermocouple => "K"@,
            CalibrationKind::Voltage => "V"@,
        },
        r.rmse == errors.rmse,
        r.mean_error == errors.mean_error,
        r.max_abs_error == errors.max_abs_error,
        r.polynomial_coefficients == fit.coefficients,
        r.r2 == fit.r2,
        r.temperature_error_fit == fit.temperature_error_fit,
        r.input_units@ == channels::fit_units_of(channel.kind),
        r.output_units@ == channels::fit_units_of(channel.kind),
        r.samples_path == files.samples,
        r.plot_light_path == files.plot_light,
        r.plot_dark_path == files.plot_dark,
        r.calibration_record_path == files.record,
{
    CalibrationSummaryRecord {
        source: files.source,
        channel_label: channel.label.to_owned(),
        channel: channel.analog_input_name.to_owned(),
        signal_name: channel.calibration_signal_name().to_owned(),
        detected_step_count,
        accepted_sample_count,
        error_units: summary_error_unit(channel.kind).0.to_owned(),
        rmse: errors.rmse,
        mean_error: errors.mean_error,
        max_abs_error: errors.max_abs_error,
        polynomial_coefficients: fit.coefficients,
        r2: fit.r2,
        temperature_error_fit: fit.temperature_error_fit,
        input_units: channel.fit_units().to_owned(),
        output_units: channel.fit_units().to_owned(),
        samples_path: files.samples,
        plot_light_path: files.plot_light,
        plot_dark_path: files.plot_dark,
        calibration_record_path: files.record,
    }
}

/// A thermocouple run lacks nothing for its cold-junction record exactly where it has
/// the calibrator's temperature, the offset and a sample of the board's temperature.
pub proof fn law_complete_cold_junction_has_no_gap(capture: ChannelCapture)
    ensures
        cold_junction_gap(capture) is None <==> {
            &&& capture.calibrator_cold_junction_temperature_k is Some
            &&& capture.board_cold_junction_offset_k is Some
            &&& capture.board_cold_junction_temperature_k@.len() > 0
        },
{
}

/// The samples of a thermocouple fit lack nothing exactly where each has its voltage
/// and its cold junction.
pub proof fn law_complete_samples_have_no_gap(samples: Seq<AcceptedSample>)
    ensures
        thermocouple_gap(samples) is None <==> forall|i: int|
            0 <= i < samples.len() ==> (#[trigger] samples[i]).thermocouple_voltage_v is Some
                && samples[i].cold_junction is Some,
    decreases samples.len(),
{
    if samples.len() > 0 {
        let rest = samples.skip(1);
        law_complete_samples_have_no_gap(rest);
        if thermocouple_gap(samples) is None {
            assert forall|i: int| 0 <= i < samples.len() implies (
            #[trigger] samples[i]).thermocouple_voltage_v is Some
                && samples[i].cold_junction is Some by {
                if i > 0 {
                    assert(rest[i - 1] == samples[i]);
                }
            }
        }
    }
}

/// What is missed is told of the first sample that lacks something: its voltage, or
/// its cold junction where it has a voltage.
pub proof fn law_first_gap_is_told(samples: Seq<AcceptedSample>, i: int)
    requires
        0 <= i < samples.len(),
        forall|k: int|
            0 <= k < i ==> (#[trigger] samples[k]).thermocouple_voltage_v is Some
                && samples[k].cold_junction is Some,
    ensures
        samples[i].thermocouple_voltage_v is None ==> thermocouple_gap(samples) == Some(
            "Thermocouple voltage fit requires thermocouple_voltage_v samples"@,
        ),
        samples[i].thermocouple_voltage_v is Some && samples[i].cold_junction is None
            ==> thermocouple_gap(samples) == Some(
            "Thermocouple voltage fit requires cold-junction temperature samples"@,
        ),
    decreases samples.len(),
{
    if i > 0 {
        assert(samples[0].thermocouple_voltage_v is Some);
        let rest = samples.skip(1);
        assert forall|k: int| 0 <= k < i - 1 implies (
        #[trigger] rest[k]).thermocouple_voltage_v is Some && rest[k].cold_junction is Some by {
            assert(rest[k] == samples[k + 1]);
        }
        law_first_gap_is_told(rest, i - 1);
    }
}

/// The constants of the frontends are those of the board: a shunt of 75 ohm, and an
/// excitation of 250 microampere with a gain of 25.7.
pub proof fn law_frontend_constants()
    ensures
        binary64::is_about(Real { bits: REFERENCE_RESISTOR_BITS }, 75, 1),
        binary64::is_about(Real { bits: RTD_REFERENCE_CURRENT_BITS }, 250, 1_000_000),
        binary64::is_about(Real { bits: RTD_FRONTEND_GAIN_BITS }, 257, 10),
{
    binary64::lemma_powers_of_two();
}

} // verus!
