//! Controller-side representation of the rev7 data acquisition board.
//!
//! Single-precision numbers are given by the bits of their IEEE 754 encoding.

use vstd::prelude::*;
use crate::binary64;
use crate::binary64::Real;
use crate::peripheral::calibration::CalRecordCore;
use crate::peripheral::id::PeripheralId;
use crate::text;
use crate::text::{push_nat, push_numbered, push_text};

verus! {

/// Number of PWM outputs.
pub const PWM_CHANNEL_COUNT: usize = 4;

/// Number of analog outputs.
pub const DAC_CHANNEL_COUNT: usize = 2;

/// Number of digital outputs.
pub const DIGITAL_OUTPUT_COUNT: usize = 4;

/// Number of 4-20 mA inputs.
pub const CURRENT_4_20_CHANNEL_COUNT: usize = 4;

/// Number of RTD inputs.
pub const RTD_CHANNEL_COUNT: usize = 3;

/// Number of thermocouple inputs.
pub const THERMOCOUPLE_CHANNEL_COUNT: usize = 2;

/// Number of calibrated analog inputs: `ain0..ain12, ain15..ain19`.
pub const ADC_CHANNEL_COUNT: usize = 18;

/// Number of input values.
pub const INPUT_COUNT: usize = 14;

/// Number of output values.
pub const OUTPUT_COUNT: usize = 25;

/// The frequency of a PWM output whose command is not a number.
pub const DEFAULT_PWM_FREQ_HZ: u32 = 1_000_000;

/// The bits of 1.
pub const ONE_BITS: u64 = 0x3ff0000000000000;

/// The bits of one half.
pub const HALF_BITS: u64 = 0x3fe0000000000000;

/// The bits of the largest frequency, 4294967295 Hz.
pub const MAX_FREQ_BITS: u64 = 0x41ef_ffff_ffe0_0000;

/// Affine sensed-voltage calibration.
#[derive(Debug, Clone, Copy, PartialEq, Eq, Structural)]
pub struct LinearCal {
    /// Dimensionless sensed-voltage scale factor.
    pub slope: Real,
    /// Sensed-voltage offset in `V`.
    pub offset: Real,
}

impl Default for LinearCal {
    fn default() -> (r: Self)
        ensures
            r.slope.bits == ONE_BITS,
            r.offset == binary64::zero(),
    {
        LinearCal { slope: Real::from_bits(ONE_BITS), offset: Real::zero() }
    }
}

/// Calibration artifact and its provenance.
#[derive(Debug)]
pub struct CalRecord {
    /// Calibration procedure metadata shared by all peripheral kinds.
    pub core: CalRecordCore,
    /// Sensed-voltage calibrations in the order of the analog inputs.
    pub voltage_cals: [LinearCal; ADC_CHANNEL_COUNT],
}

/// Affine calibration as the firmware stores it.
#[derive(Debug, Clone, Copy, PartialEq, Eq, Structural)]
pub struct LinearCalibration {
    pub slope_bits: u32,
    pub offset_bits: u32,
}

/// Whether a single-precision number is neither infinite nor NaN.
pub open spec fn single_finite(bits: u32) -> bool {
    bits as int % 0x8000_0000 < 0x7f80_0000
}

/// Whether a single-precision number is one of the two zeros.
pub open spec fn single_zero(bits: u32) -> bool {
    bits as int % 0x8000_0000 == 0
}

impl LinearCalibration {
    /// Both coefficients are finite and the slope is not zero.
    pub open spec fn valid(self) -> bool {
        single_finite(self.slope_bits) && single_finite(self.offset_bits) && !single_zero(
            self.slope_bits,
        )
    }

    /// Tests whether both coefficients are finite and the slope is not zero.
    pub fn is_valid(self) -> (r: bool)
        ensures
            r == self.valid(),
    {
        self.slope_bits % 0x8000_0000 < 0x7f80_0000 && self.offset_bits % 0x8000_0000 < 0x7f80_0000
            && self.slope_bits % 0x8000_0000 != 0
    }
}

/// Calibration record of the firmware image.
#[derive(Debug)]
pub struct Calibration {
    pub firmware_calibrated: u8,
    pub voltage_cals: Vec<LinearCalibration>,
}

/// Whether all coefficients are valid.
pub open spec fn all_valid(v: Seq<LinearCalibration>) -> bool {
    forall|i: int| 0 <= i < v.len() ==> (#[trigger] v[i]).valid()
}

/// Builds the firmware record from the coefficients after narrowing to single
/// precision. `calibrated` is the status behind a calibration procedure (`true`)
/// or of an identity image (`false`).
pub fn firmware_calibration(narrowed: Vec<LinearCalibration>, calibrated: bool) -> (r: Result<
    Calibration,
    String,
>)
    ensures
        match r {
            Ok(c) => {
                &&& all_valid(narrowed@)
                &&& c.voltage_cals == narrowed
                &&& c.firmware_calibrated == if calibrated {
                    1u8
                } else {
                    0u8
                }
            },
            Err(e) => !all_valid(narrowed@) && e@
                == "Calibration contains an invalid or non-finite coefficient"@,
        },
{
    let mut i: usize = 0;
    while i < narrowed.len()
        invariant
            i <= narrowed@.len(),
            forall|k: int| 0 <= k < i ==> (#[trigger] narrowed@[k]).valid(),
        decreases narrowed@.len() - i,
    {
        if !narrowed[i].is_valid() {
            assert(!narrowed@[i as int].valid());
            return Err("Calibration contains an invalid or non-finite coefficient".to_owned());
        }
        i = i + 1;
    }
    let firmware_calibrated: u8 = if calibrated {
        1
    } else {
        0
    };
    Ok(Calibration { firmware_calibrated, voltage_cals: narrowed })
}

/// The names of the input values.
pub open spec fn input_texts() -> Seq<Seq<char>> {
    text::numbered_texts("pwm"@, 0, 4, "_duty"@) + text::numbered_texts("pwm"@, 0, 4, "_freq"@)
        + text::numbered_texts("dac"@, 0, 2, ""@) + text::numbered_texts("do"@, 0, 4, ""@)
}

/// The names of the output values.
pub open spec fn output_texts() -> Seq<Seq<char>> {
    seq!["sample_time_ns"@, "bus_A"@, "bus_V"@, "board_temp_K"@] + text::numbered_texts(
        "4_20_"@,
        0,
        4,
        "_A"@,
    ) + text::numbered_texts("res_"@, 0, 3, "_ohm"@) + text::numbered_texts("tc_"@, 0, 2, "_K"@)
        + seq!["2V5_0_V"@, "2V5_1_V"@, "15V_0_V"@, "15V_1_V"@, "35mV_0_V"@, "35mV_1_V"@] + seq![
        "encoder"@,
        "counter"@,
        "freq0"@,
        "freq1"@,
        "di0"@,
        "di1"@,
    ]
}

/// The board.
#[derive(Debug, Clone, Copy, PartialEq, Eq, Structural)]
pub struct DeimosDaqRev7 {
    pub serial_number: u64,
}

impl DeimosDaqRev7 {
    /// Identity of the board, given the number of its model.
    pub fn id(&self, model_number: u64) -> (r: PeripheralId)
        ensures
            r == (PeripheralId { model_number, serial_number: self.serial_number }),
    {
        PeripheralId { model_number, serial_number: self.serial_number }
    }

    /// The names of the input values.
    pub fn input_names(&self) -> (v: Vec<String>)
        ensures
            text::texts(v@) == input_texts(),
            v@.len() == INPUT_COUNT,
    {
        let mut v: Vec<String> = Vec::new();
        push_numbered(&mut v, "pwm", 0, PWM_CHANNEL_COUNT, "_duty");
        push_numbered(&mut v, "pwm", 0, PWM_CHANNEL_COUNT, "_freq");
        push_numbered(&mut v, "dac", 0, DAC_CHANNEL_COUNT, "");
        push_numbered(&mut v, "do", 0, DIGITAL_OUTPUT_COUNT, "");
        assert(text::texts(v@) =~= input_texts());
        assert(text::texts(v@).len() == v@.len());
        v
    }

    /// The names of the output values.
    pub fn output_names(&self) -> (v: Vec<String>)
        ensures
            text::texts(v@) == output_texts(),
            v@.len() == OUTPUT_COUNT,
    {
        let mut v: Vec<String> = Vec::new();
        push_text(&mut v, "sample_time_ns");
        push_text(&mut v, "bus_A");
        push_text(&mut v, "bus_V");
        push_text(&mut v, "board_temp_K");
        push_numbered(&mut v, "4_20_", 0, CURRENT_4_20_CHANNEL_COUNT, "_A");
        push_numbered(&mut v, "res_", 0, RTD_CHANNEL_COUNT, "_ohm");
        push_numbered(&mut v, "tc_", 0, THERMOCOUPLE_CHANNEL_COUNT, "_K");
        push_text(&mut v, "2V5_0_V");
        push_text(&mut v, "2V5_1_V");
        push_text(&mut v, "15V_0_V");
        push_text(&mut v, "15V_1_V");
        push_text(&mut v, "35mV_0_V");
        push_text(&mut v, "35mV_1_V");
        push_text(&mut v, "encoder");
        push_text(&mut v, "counter");
        push_text(&mut v, "freq0");
        push_text(&mut v, "freq1");
        push_text(&mut v, "di0");
        push_text(&mut v, "di1");
        assert(text::texts(v@) =~= output_texts());
        assert(text::texts(v@).len() == v@.len());
        v
    }
}

/// Commanded outputs of the board, in range.
#[derive(Debug)]
pub struct Outputs {
    pub pwm_duty_frac: Vec<Real>,
    pub pwm_freq_hz: Vec<u32>,
    pub dac_v: Vec<Real>,
    pub gpio: u8,
}

/// A number in the range from 0 to `hi`: zero where it is not a number.
pub open spec fn safe_level(x: Real, hi: Real) -> Real {
    if x.nan() {
        binary64::zero()
    } else {
        x.clamped(binary64::zero(), hi)
    }
}

fn level(x: Real, hi: Real) -> (r: Real)
    requires
        binary64::zero().le(hi),
    ensures
        r == safe_level(x, hi),
{
    if x.is_nan() {
        Real::zero()
    } else {
        x.clamp(Real::zero(), hi)
    }
}

/// The frequency of a PWM output in whole hertz, at least one: the default where
/// the number is none.
pub open spec fn safe_freq(x: Real) -> u32 {
    if x.nan() {
        DEFAULT_PWM_FREQ_HZ
    } else {
        x.clamped(Real { bits: ONE_BITS }, Real { bits: MAX_FREQ_BITS }).whole_u32() as u32
    }
}

fn freq(x: Real) -> (r: u32)
    ensures
        r == safe_freq(x),
{
    if x.is_nan() {
        DEFAULT_PWM_FREQ_HZ
    } else {
        x.clamp(Real::from_bits(ONE_BITS), Real::from_bits(MAX_FREQ_BITS)).saturating_u32()
    }
}

/// Whether a digital output is on: its number is at least one half.
pub open spec fn digital_on(x: Real) -> bool {
    (Real { bits: HALF_BITS }).le(x)
}

/// The bit of a digital output.
pub open spec fn gpio_bit(x: Real, weight: int) -> int {
    if digital_on(x) {
        weight
    } else {
        0
    }
}

fn bit(x: Real, weight: u8) -> (r: u8)
    ensures
        r == gpio_bit(x, weight as int),
{
    if Real::from_bits(HALF_BITS).at_most(x) {
        weight
    } else {
        0
    }
}

impl DeimosDaqRev7 {
    /// Brings the input values into the ranges of the outputs. Duty cycles stay
    /// within 0 to 1 and analog outputs within 0 to `vref`; a number that is none
    /// gives the safe value. Inputs behind those of the board are not read.
    pub fn normalized_outputs(&self, inputs: &[Real], vref: Real) -> (r: Outputs)
        requires
            inputs.len() >= INPUT_COUNT,
            binary64::zero().le(vref),
        ensures
            r.pwm_duty_frac@ == Seq::new(
                4,
                |i: int| safe_level(inputs@[i], Real { bits: ONE_BITS }),
            ),
            r.pwm_freq_hz@ == Seq::new(4, |i: int| safe_freq(inputs@[4 + i])),
            r.dac_v@ == Seq::new(2, |i: int| safe_level(inputs@[8 + i], vref)),
            r.gpio == gpio_bit(inputs@[10], 1) + gpio_bit(inputs@[11], 2) + gpio_bit(inputs@[12], 4)
                + gpio_bit(inputs@[13], 8),
    {
        let one = Real::from_bits(ONE_BITS);
        let mut pwm_duty_frac: Vec<Real> = Vec::new();
        let mut pwm_freq_hz: Vec<u32> = Vec::new();
        let mut i: usize = 0;
        while i < PWM_CHANNEL_COUNT
            invariant
                i <= PWM_CHANNEL_COUNT,
                inputs.len() >= INPUT_COUNT,
                one.bits == ONE_BITS,
                pwm_duty_frac@ == Seq::new(i as nat, |k: int| safe_level(inputs@[k], one)),
                pwm_freq_hz@ == Seq::new(i as nat, |k: int| safe_freq(inputs@[4 + k])),
            decreases PWM_CHANNEL_COUNT - i,
        {
            pwm_duty_frac.push(level(inputs[i], one));
            pwm_freq_hz.push(freq(inputs[PWM_CHANNEL_COUNT + i]));
            i = i + 1;
            assert(pwm_duty_frac@ =~= Seq::new(i as nat, |k: int| safe_level(inputs@[k], one)));
            assert(pwm_freq_hz@ =~= Seq::new(i as nat, |k: int| safe_freq(inputs@[4 + k])));
        }
        let dac_v = vec![level(inputs[8], vref), level(inputs[9], vref)];
        assert(dac_v@ =~= Seq::new(2, |i: int| safe_level(inputs@[8 + i], vref)));
        let gpio: u8 = bit(inputs[10], 1) + bit(inputs[11], 2) + bit(inputs[12], 4) + bit(
            inputs[13],
            8,
        );
        Outputs { pwm_duty_frac, pwm_freq_hz, dac_v, gpio }
    }
}

/// The fields of an operating packet of the board, as double-precision numbers.
#[derive(Debug)]
pub struct Snapshot {
    pub sample_time_ns: Real,
    pub module_bus_current_a: Real,
    pub module_bus_voltage_v: Real,
    pub board_temperature_k: Real,
    pub current_4_20_a: [Real; 4],
    pub rtd_resistance_ohm: [Real; 3],
    pub thermocouple_temperature_k: [Real; 2],
    pub voltage_v: [Real; 6],
    pub encoder: Real,
    pub pulse_counter: Real,
    pub frequency_meas: [Real; 2],
    pub gpio: u8,
}

/// A bit as a number.
pub open spec fn bit_value(on: bool) -> Real {
    if on {
        Real { bits: ONE_BITS }
    } else {
        binary64::zero()
    }
}

fn number_of_bit(on: bool) -> (r: Real)
    ensures
        r == bit_value(on),
{
    if on {
        Real::from_bits(ONE_BITS)
    } else {
        Real::zero()
    }
}

impl Snapshot {
    /// The output values in the order of their names.
    pub open spec fn values(self) -> Seq<Real> {
        seq![
            self.sample_time_ns,
            self.module_bus_current_a,
            self.module_bus_voltage_v,
            self.board_temperature_k,
        ] + self.current_4_20_a@ + self.rtd_resistance_ohm@ + self.thermocouple_temperature_k@
            + self.voltage_v@ + seq![self.encoder, self.pulse_counter] + self.frequency_meas@
            + seq![bit_value(self.gpio % 2 == 1), bit_value(self.gpio / 2 % 2 == 1)]
    }

    /// The output values in the order of their names.
    pub fn outputs(&self) -> (v: Vec<Real>)
        ensures
            v@ == self.values(),
            v@.len() == OUTPUT_COUNT,
    {
        let v = vec![
            self.sample_time_ns,
            self.module_bus_current_a,
            self.module_bus_voltage_v,
            self.board_temperature_k,
            self.current_4_20_a[0],
            self.current_4_20_a[1],
            self.current_4_20_a[2],
            self.current_4_20_a[3],
            self.rtd_resistance_ohm[0],
            self.rtd_resistance_ohm[1],
            self.rtd_resistance_ohm[2],
            self.thermocouple_temperature_k[0],
            self.thermocouple_temperature_k[1],
            self.voltage_v[0],
            self.voltage_v[1],
            self.voltage_v[2],
            self.voltage_v[3],
            self.voltage_v[4],
            self.voltage_v[5],
            self.encoder,
            self.pulse_counter,
            self.frequency_meas[0],
            self.frequency_meas[1],
            number_of_bit(self.gpio % 2 == 1),
            number_of_bit(self.gpio / 2 % 2 == 1),
        ];
        assert(v@ =~= self.values());
        v
    }
}

/// The cycle periods and rates that the board supports.
#[derive(Debug, Clone, Copy, PartialEq, Eq, Structural)]
pub struct CycleLimits {
    pub min_period_ns: u32,
    pub max_period_ns: u32,
    pub min_rate_hz: u32,
    pub max_rate_hz: u32,
}

/// Why a configuration with a supported period is rejected.
#[derive(Debug)]
pub enum OtherRejection {
    /// The board would answer with this.
    Response(String),
    /// The packet marker is wrong.
    Marker,
}

/// Why a configuration is rejected.
pub open spec fn configuring_fault(
    dt_ns: u32,
    limits: CycleLimits,
    other: Option<OtherRejection>,
) -> Option<Seq<char>> {
    if dt_ns < limits.min_period_ns {
        Some(
            "dt_ns="@ + text::nat_text(dt_ns as nat) + " is shorter than the supported minimum "@
                + text::nat_text(limits.min_period_ns as nat) + " ns (maximum cycle rate "@
                + text::nat_text(limits.max_rate_hz as nat) + " Hz)"@,
        )
    } else if dt_ns > limits.max_period_ns {
        Some(
            "dt_ns="@ + text::nat_text(dt_ns as nat) + " exceeds the supported maximum "@
                + text::nat_text(limits.max_period_ns as nat) + " ns (minimum cycle rate "@
                + text::nat_text(limits.min_rate_hz as nat) + " Hz)"@,
        )
    } else {
        match other {
            Some(OtherRejection::Response(name)) => Some(
                "Configuration was rejected with unexpected response "@ + name@,
            ),
            Some(OtherRejection::Marker) => Some("Configuration has an invalid packet marker"@),
            None => None,
        }
    }
}

impl DeimosDaqRev7 {
    /// Checks a configuration before it is sent.
    pub fn validate_configuring(&self, dt_ns: u32, limits: CycleLimits, other: Option<OtherRejection>) -> (r:
        Result<(), String>)
        ensures
            match r {
                Ok(()) => configuring_fault(dt_ns, limits, other) is None,
                Err(e) => configuring_fault(dt_ns, limits, other) == Some(e@),
            },
    {
        if dt_ns < limits.min_period_ns {
            let mut e = "dt_ns=".to_owned();
            push_nat(&mut e, dt_ns as u128);
            e.push_str(" is shorter than the supported minimum ");
            push_nat(&mut e, limits.min_period_ns as u128);
            e.push_str(" ns (maximum cycle rate ");
            push_nat(&mut e, limits.max_rate_hz as u128);
            e.push_str(" Hz)");
            return Err(e);
        }
        if dt_ns > limits.max_period_ns {
            let mut e = "dt_ns=".to_owned();
            push_nat(&mut e, dt_ns as u128);
            e.push_str(" exceeds the supported maximum ");
            push_nat(&mut e, limits.max_period_ns as u128);
            e.push_str(" ns (minimum cycle rate ");
            push_nat(&mut e, limits.min_rate_hz as u128);
            e.push_str(" Hz)");
            return Err(e);
        }
        match other {
            Some(OtherRejection::Response(name)) => {
                let mut e = "Configuration was rejected with unexpected response ".to_owned();
                e.push_str(name.as_str());
                Err(e)
            },
            Some(OtherRejection::Marker) => Err("Configuration has an invalid packet marker".to_owned()),
            None => Ok(()),
        }
    }
}

/// The decoded answer of the board to a configuration. `other` is the name of an
/// answer that is not an acknowledgement.
#[derive(Debug)]
pub struct ConfiguringAnswer {
    pub valid: bool,
    pub other: Option<String>,
    pub firmware_calibrated: u8,
}

impl DeimosDaqRev7 {
    /// Accepts the answer of the board to a configuration, and says whether its
    /// firmware is calibrated. `answer` is what the bytes hold where their number is
    /// right.
    pub fn parse_configuring(&self, len: usize, expected_len: usize, answer: ConfiguringAnswer) -> (r: Result<
        Option<bool>,
        String,
    >)
        ensures
            match r {
                Ok(calibrated) => len == expected_len && answer.valid && answer.other is None
                    && calibrated == Some(answer.firmware_calibrated != 0),
                Err(e) => if len != expected_len {
                    e@ == "Invalid configuring response length"@
                } else if !answer.valid {
                    e@ == "Invalid configuring response magic or calibration flag"@
                } else {
                    answer.other == Some(e)
                },
            },
    {
        if len != expected_len {
            return Err("Invalid configuring response length".to_owned());
        }
        if !answer.valid {
            return Err("Invalid configuring response magic or calibration flag".to_owned());
        }
        match answer.other {
            None => Ok(Some(answer.firmware_calibrated != 0)),
            Some(name) => Err(name),
        }
    }
}

/// A calculation that turns a resistance into a temperature: its name and the
/// name of its input.
#[derive(Debug)]
pub struct RtdCalc {
    pub name: String,
    pub input: String,
}

/// The name of the calculation for an RTD input.
pub open spec fn rtd_calc_name(name: Seq<char>, i: nat) -> Seq<char> {
    name + "_rtd_"@ + text::nat_text(i)
}

/// The resistance that the calculation for an RTD input reads.
pub open spec fn rtd_calc_input(name: Seq<char>, i: nat) -> Seq<char> {
    name + ".res_"@ + text::nat_text(i) + "_ohm"@
}

impl DeimosDaqRev7 {
    /// The firmware publishes all engineering conversions except external RTD
    /// temperature: one calculation for each RTD input.
    pub fn standard_calcs(&self, name: &str) -> (v: Vec<RtdCalc>)
        ensures
            v@.len() == RTD_CHANNEL_COUNT,
            forall|i: int|
                0 <= i < v@.len() ==> (#[trigger] v@[i]).name@ == rtd_calc_name(name@, i as nat)
                    && v@[i].input@ == rtd_calc_input(name@, i as nat),
    {
        let mut v: Vec<RtdCalc> = Vec::new();
        let mut i: usize = 0;
        while i < RTD_CHANNEL_COUNT
            invariant
                i <= RTD_CHANNEL_COUNT,
                v@.len() == i,
                forall|k: int|
                    0 <= k < v@.len() ==> (#[trigger] v@[k]).name@ == rtd_calc_name(
                        name@,
                        k as nat,
                    ) && v@[k].input@ == rtd_calc_input(name@, k as nat),
            decreases RTD_CHANNEL_COUNT - i,
        {
            let mut calc = name.to_owned();
            calc.push_str("_rtd_");
            push_nat(&mut calc, i as u128);
            let mut input = name.to_owned();
            input.push_str(".res_");
            push_nat(&mut input, i as u128);
            input.push_str("_ohm");
            v.push(RtdCalc { name: calc, input });
            i = i + 1;
        }
        v
    }
}

/// What reaches the outputs is in range, whatever was commanded.
pub proof fn law_levels_stay_in_range(x: Real, hi: Real)
    requires
        binary64::zero().le(hi),
    ensures
        binary64::zero().le(safe_level(x, hi)),
        safe_level(x, hi).le(hi),
        x.nan() ==> safe_level(x, hi) == binary64::zero(),
{
}

/// A commanded frequency is at least one hertz, whatever was commanded.
pub proof fn law_frequencies_are_positive(x: Real)
    ensures
        1 <= safe_freq(x) <= u32::MAX,
        x.nan() ==> safe_freq(x) == DEFAULT_PWM_FREQ_HZ,
{
    if !x.nan() {
        let y = x.clamped(Real { bits: ONE_BITS }, Real { bits: MAX_FREQ_BITS });
        let exponent: u64 = y.bits / binary64::LEADING;
        let significand: u64 = (binary64::LEADING + y.bits % binary64::LEADING) as u64;
        let shift: u64 = (binary64::EXPONENT_OF_ONE + 52 - exponent) as u64;
        vstd::bits::lemma_u64_shr_is_div(significand, shift);
        assert(1 <= significand >> shift <= 0xffff_ffff) by (bit_vector)
            requires
                0x10_0000_0000_0000 <= significand < 0x20_0000_0000_0000,
                21 <= shift <= 52,
        ;
    }
}

/// Names and values of the outputs go together: there are as many of each, and each
/// value stands where its name does.
pub proof fn law_outputs_match_their_names(snapshot: Snapshot, i: int)
    ensures
        ({
            let names = output_texts();
            let values = snapshot.values();
            &&& values.len() == names.len()
            &&& names.len() == OUTPUT_COUNT
            &&& names[0] == "sample_time_ns"@ && values[0] == snapshot.sample_time_ns
            &&& names[1] == "bus_A"@ && values[1] == snapshot.module_bus_current_a
            &&& names[2] == "bus_V"@ && values[2] == snapshot.module_bus_voltage_v
            &&& names[3] == "board_temp_K"@ && values[3] == snapshot.board_temperature_k
            &&& 0 <= i < 4 ==> names[4 + i] == text::numbered("4_20_"@, i as nat, "_A"@)
                && values[4 + i] == snapshot.current_4_20_a@[i]
            &&& 0 <= i < 3 ==> names[8 + i] == text::numbered("res_"@, i as nat, "_ohm"@)
                && values[8 + i] == snapshot.rtd_resistance_ohm@[i]
            &&& 0 <= i < 2 ==> names[11 + i] == text::numbered("tc_"@, i as nat, "_K"@)
                && values[11 + i] == snapshot.thermocouple_temperature_k@[i]
            &&& 0 <= i < 6 ==> names[13 + i] == seq![
                "2V5_0_V"@,
                "2V5_1_V"@,
                "15V_0_V"@,
                "15V_1_V"@,
                "35mV_0_V"@,
                "35mV_1_V"@,
            ][i] && values[13 + i] == snapshot.voltage_v@[i]
            &&& names[19] == "encoder"@ && values[19] == snapshot.encoder
            &&& names[20] == "counter"@ && values[20] == snapshot.pulse_counter
            &&& names[21] == "freq0"@ && values[21] == snapshot.frequency_meas@[0]
            &&& names[22] == "freq1"@ && values[22] == snapshot.frequency_meas@[1]
            &&& names[23] == "di0"@ && values[23] == bit_value(snapshot.gpio % 2 == 1)
            &&& names[24] == "di1"@ && values[24] == bit_value(snapshot.gpio / 2 % 2 == 1)
        }),
{
}

/// A commanded level in range is kept. One beyond the range goes to its end.
pub proof fn law_levels_in_range_are_kept(x: Real, hi: Real)
    requires
        binary64::zero().le(hi),
    ensures
        binary64::zero().le(x) && x.le(hi) ==> safe_level(x, hi) == x,
        x.lt(binary64::zero()) ==> safe_level(x, hi) == binary64::zero(),
        hi.lt(x) ==> safe_level(x, hi) == hi,
{
}

/// A commanded frequency in range is kept but for what is behind its point, and one
/// beyond the range goes to its end.
pub proof fn law_frequencies_in_range_are_kept(x: Real)
    ensures
        x.lt(Real { bits: ONE_BITS }) ==> safe_freq(x) == 1,
        (Real { bits: binary64::TWO_TO_32_BITS }).le(x) ==> safe_freq(x) == u32::MAX,
        (Real { bits: ONE_BITS }).le(x) && x.le(Real { bits: MAX_FREQ_BITS }) ==> {
            let significand = binary64::LEADING + x.bits % binary64::LEADING;
            let one = binary64::two_to((1075 - x.bits / binary64::LEADING) as nat);
            safe_freq(x) * one <= significand < (safe_freq(x) + 1) * one
        },
        binary64::is_about(Real { bits: ONE_BITS }, 1, 1),
        binary64::is_about(Real { bits: MAX_FREQ_BITS }, 4_294_967_295, 1),
{
    binary64::lemma_powers_of_two();
    let one = Real { bits: ONE_BITS };
    let most = Real { bits: MAX_FREQ_BITS };
    binary64::lemma_whole_ends();
    if one.le(x) && x.le(most) {
        binary64::law_whole_part_is_below(x);
    }
}

/// Each digital output has a bit of its own, which is set exactly where its number
/// is one half or more.
pub proof fn law_digital_outputs_have_their_bits(a: Real, b: Real, c: Real, d: Real)
    ensures
        ({
            let half = Real { bits: HALF_BITS };
            let gpio = gpio_bit(a, 1) + gpio_bit(b, 2) + gpio_bit(c, 4) + gpio_bit(d, 8);
            &&& 0 <= gpio < 16
            &&& (gpio % 2 == 1 <==> half.le(a))
            &&& (gpio / 2 % 2 == 1 <==> half.le(b))
            &&& (gpio / 4 % 2 == 1 <==> half.le(c))
            &&& (gpio / 8 == 1 <==> half.le(d))
            &&& binary64::is_about(half, 1, 2)
        }),
{
    binary64::lemma_powers_of_two();
}

/// The inputs are named in the order in which they are read: the duty cycles and the
/// frequencies of the PWM outputs, the analog outputs, then the digital ones.
pub proof fn law_inputs_are_named_in_order(i: int)
    ensures
        input_texts().len() == INPUT_COUNT,
        0 <= i < 4 ==> input_texts()[i] == text::numbered("pwm"@, i as nat, "_duty"@),
        0 <= i < 4 ==> input_texts()[4 + i] == text::numbered("pwm"@, i as nat, "_freq"@),
        0 <= i < 2 ==> input_texts()[8 + i] == text::numbered("dac"@, i as nat, ""@),
        0 <= i < 4 ==> input_texts()[10 + i] == text::numbered("do"@, i as nat, ""@),
{
}

/// A coefficient is accepted unless its exponent bits are all set, as they are of
/// infinities and of what is no number. A slope must not be zero of either sign.
pub proof fn law_coefficients_are_finite(c: LinearCalibration)
    ensures
        c.valid() <==> {
            &&& c.slope_bits / 0x80_0000 % 256 != 255
            &&& c.offset_bits / 0x80_0000 % 256 != 255
            &&& c.slope_bits != 0
            &&& c.slope_bits != 0x8000_0000
        },
{
}

/// A configuration is accepted exactly where its period is from the shortest to the
/// longest one and nothing else speaks against it.
pub proof fn law_supported_periods_are_accepted(
    dt_ns: u32,
    limits: CycleLimits,
    other: Option<OtherRejection>,
)
    ensures
        configuring_fault(dt_ns, limits, other) is None <==> limits.min_period_ns <= dt_ns
            <= limits.max_period_ns && other is None,
{
}

/// A digital input is the number one where it is on, and zero where it is off.
pub proof fn law_digital_inputs_are_zero_or_one(on: bool)
    ensures
        on ==> binary64::is_about(bit_value(on), 1, 1),
        !on ==> bit_value(on).same(binary64::zero()),
{
    binary64::lemma_powers_of_two();
}

/// There is one standard calculation for each RTD input, and it reads the board's
/// output with the resistance of the same input.
pub proof fn law_rtd_calculations_read_their_outputs(name: Seq<char>, i: nat)
    requires
        i < RTD_CHANNEL_COUNT,
    ensures
        RTD_CHANNEL_COUNT == 3,
        rtd_calc_input(name, i) == name + "."@ + output_texts()[8 + i as int],
        rtd_calc_name(name, i) == text::numbered(name + "_rtd_"@, i, ""@),
{
    reveal_strlit(".res_");
    reveal_strlit(".");
    reveal_strlit("res_");
    reveal_strlit("");
    assert(output_texts()[8 + i as int] == text::numbered("res_"@, i, "_ohm"@));
    assert(rtd_calc_input(name, i) =~= name + "."@ + output_texts()[8 + i as int]);
    assert(rtd_calc_name(name, i) =~= text::numbered(name + "_rtd_"@, i, ""@));
}

} // verus!
