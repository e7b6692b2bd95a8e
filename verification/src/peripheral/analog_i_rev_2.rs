//! Controller-side representation of the Analog I rev 2 board.

use vstd::prelude::*;
use crate::binary64;
use crate::binary64::Real;
use crate::peripheral::id::PeripheralId;
use crate::text;
use crate::text::{push_nat, push_numbered};

verus! {

/// Number of PWM outputs.
pub const PWM_COUNT: usize = 8;

/// Number of analog inputs.
pub const AIN_COUNT: usize = 20;

/// The board.
#[derive(Debug, Clone, Copy, PartialEq, Eq, Structural)]
pub struct AnalogIRev2 {
    pub serial_number: u64,
}

impl AnalogIRev2 {
    /// Identity of the board, given the number of its model.
    pub fn id(&self, model_number: u64) -> (r: PeripheralId)
        ensures
            r == (PeripheralId { model_number, serial_number: self.serial_number }),
    {
        PeripheralId { model_number, serial_number: self.serial_number }
    }

    /// The names of the input values.
    pub fn input_names(&self) -> (v: Vec<String>)
        ensures
            text::texts(v@) == text::numbered_texts("pwm"@, 0, 8, "_duty"@) + text::numbered_texts(
                "pwm"@,
                0,
                8,
                "_freq"@,
            ),
    {
        let mut v: Vec<String> = Vec::new();
        push_numbered(&mut v, "pwm", 0, PWM_COUNT, "_duty");
        push_numbered(&mut v, "pwm", 0, PWM_COUNT, "_freq");
        assert(text::texts(v@) =~= text::numbered_texts("pwm"@, 0, 8, "_duty"@)
            + text::numbered_texts("pwm"@, 0, 8, "_freq"@));
        v
    }

    /// The names of the output values.
    pub fn output_names(&self) -> (v: Vec<String>)
        ensures
            text::texts(v@) == text::numbered_texts("ain"@, 0, 20, ""@),
    {
        let mut v: Vec<String> = Vec::new();
        push_numbered(&mut v, "ain", 0, AIN_COUNT, "");
        assert(text::texts(v@) =~= text::numbered_texts("ain"@, 0, 20, ""@));
        v
    }

    /// Brings the duty cycles into the range from 0 to 1. A number that is none
    /// stays as it is.
    pub fn duty_cycles(&self, inputs: &[Real]) -> (v: Vec<Real>)
        requires
            inputs.len() >= PWM_COUNT,
        ensures
            v@ == Seq::new(
                8,
                |i: int| inputs@[i].clamped(binary64::zero(), Real { bits: ONE_BITS }),
            ),
    {
        let one = Real::from_bits(ONE_BITS);
        let mut v: Vec<Real> = Vec::new();
        let mut i: usize = 0;
        while i < PWM_COUNT
            invariant
                i <= PWM_COUNT,
                inputs.len() >= PWM_COUNT,
                one.bits == ONE_BITS,
                v@ == Seq::new(i as nat, |k: int| inputs@[k].clamped(binary64::zero(), one)),
            decreases PWM_COUNT - i,
        {
            v.push(inputs[i].clamp(Real::zero(), one));
            i = i + 1;
            assert(v@ =~= Seq::new(i as nat, |k: int| inputs@[k].clamped(binary64::zero(), one)));
        }
        v
    }
}

/// The bits of the largest frequency, 4294967295 Hz.
pub const MAX_FREQ_BITS: u64 = 0x41ef_ffff_ffe0_0000;

/// The frequency of a PWM output in whole hertz, at least one: zero where the
/// number is none.
pub open spec fn whole_freq(x: Real) -> u32 {
    x.clamped(Real { bits: ONE_BITS }, Real { bits: MAX_FREQ_BITS }).whole_u32() as u32
}

impl AnalogIRev2 {
    /// Converts the frequencies of the PWM outputs to whole hertz.
    pub fn pwm_frequencies(&self, inputs: &[Real]) -> (v: Vec<u32>)
        requires
            inputs.len() >= 2 * PWM_COUNT,
        ensures
            v@ == Seq::new(8, |i: int| whole_freq(inputs@[8 + i])),
    {
        let mut v: Vec<u32> = Vec::new();
        let mut i: usize = 0;
        while i < PWM_COUNT
            invariant
                i <= PWM_COUNT,
                inputs.len() >= 2 * PWM_COUNT,
                v@ == Seq::new(i as nat, |k: int| whole_freq(inputs@[8 + k])),
            decreases PWM_COUNT - i,
        {
            v.push(
                inputs[PWM_COUNT + i].clamp(
                    Real::from_bits(ONE_BITS),
                    Real::from_bits(MAX_FREQ_BITS),
                ).saturating_u32(),
            );
            i = i + 1;
            assert(v@ =~= Seq::new(i as nat, |k: int| whole_freq(inputs@[8 + k])));
        }
        v
    }
}

/// A calculation on named values.
#[derive(Debug)]
pub enum CalcPlan {
    Constant { value: Real },
    Affine { input: String, slope: Real, offset: Real },
    InverseAffine { input: String, slope: Real, offset: Real },
    RtdPt100 { resistance: String },
    TcKtype { voltage: String, cold_junction: String },
}

/// A calculation on named values, by the texts of the names.
pub ghost enum Plan {
    Constant { value: u64 },
    Affine { input: Seq<char>, slope: u64, offset: u64 },
    InverseAffine { input: Seq<char>, slope: u64, offset: u64 },
    RtdPt100 { resistance: Seq<char> },
    TcKtype { voltage: Seq<char>, cold_junction: Seq<char> },
}

impl CalcPlan {
    /// The calculation.
    pub open spec fn plan(self) -> Plan {
        match self {
            CalcPlan::Constant { value } => Plan::Constant { value: value.bits },
            CalcPlan::Affine { input, slope, offset } => Plan::Affine {
                input: input@,
                slope: slope.bits,
                offset: offset.bits,
            },
            CalcPlan::InverseAffine { input, slope, offset } => Plan::InverseAffine {
                input: input@,
                slope: slope.bits,
                offset: offset.bits,
            },
            CalcPlan::RtdPt100 { resistance } => Plan::RtdPt100 { resistance: resistance@ },
            CalcPlan::TcKtype { voltage, cold_junction } => Plan::TcKtype {
                voltage: voltage@,
                cold_junction: cold_junction@,
            },
        }
    }
}

/// A named calculation.
#[derive(Debug)]
pub struct NamedCalc {
    pub name: String,
    pub calc: CalcPlan,
}

/// A named calculation, by texts.
pub ghost struct NamedPlan {
    pub name: Seq<char>,
    pub plan: Plan,
}

impl NamedCalc {
    /// The named calculation.
    pub open spec fn named(self) -> NamedPlan {
        NamedPlan { name: self.name@, plan: self.calc.plan() }
    }
}

/// The named calculations of a list.
pub open spec fn plans(v: Seq<NamedCalc>) -> Seq<NamedPlan> {
    v.map_values(|c: NamedCalc| c.named())
}

/// The bits of 1.
pub const ONE_BITS: u64 = 0x3ff0000000000000;

/// The bits of 273.15: room temperature at 0 degrees Celsius, since the board
/// temperature does not function on this design.
pub const BOARD_TEMP_BITS: u64 = 0x4071126666666666;

/// The bits of 3, the scale of the bus voltage.
pub const BUS_SCALE_BITS: u64 = 0x4008000000000000;

/// The bits of 100, the shunt of the current inputs in ohm.
pub const SHUNT_BITS: u64 = 0x4059000000000000;

/// The bits of 250 microampere times a gain of 25.7.
pub const RTD_SLOPE_BITS: u64 = 0x3f7a5119ce075f70;

/// The bits of 25.7, the gain of the thermocouple inputs.
pub const TC_SLOPE_BITS: u64 = 0x4039b33333333333;

/// The bits of 1.024, the offset of the thermocouple inputs in volt.
pub const TC_OFFSET_BITS: u64 = 0x3ff0624dd2f1a9fc;

/// The name of an analog input.
pub open spec fn ain(name: Seq<char>, i: nat) -> Seq<char> {
    text::numbered(name + ".ain"@, i, ""@)
}

/// The calculation of a current from `ain2` to `ain7`.
pub open spec fn current_plan(name: Seq<char>, i: nat) -> NamedPlan {
    NamedPlan {
        name: text::numbered(name + "_4_20_mA_"@, (i - 1) as nat, "_A"@),
        plan: Plan::InverseAffine { input: ain(name, i), slope: SHUNT_BITS, offset: 0 },
    }
}

/// The calculations of a resistance and its temperature.
pub open spec fn rtd_plans(name: Seq<char>, i: nat, rtd: Seq<char>) -> Seq<NamedPlan> {
    let resistance = name + "_rtd_"@ + rtd + "_resistance_ohm"@;
    seq![
        NamedPlan {
            name: resistance,
            plan: Plan::InverseAffine { input: ain(name, i), slope: RTD_SLOPE_BITS, offset: 0 },
        },
        NamedPlan {
            name: name + "_rtd_"@ + rtd + "_temp_K"@,
            plan: Plan::RtdPt100 { resistance: resistance + ".y"@ },
        },
    ]
}

/// The calculations of a thermocouple voltage and its temperature, from `ain13`
/// to `ain17`.
pub open spec fn tc_plans(name: Seq<char>, i: nat) -> Seq<NamedPlan> {
    let voltage = text::numbered(name + "_tc_"@, (i - 12) as nat, "_voltage_V"@);
    seq![
        NamedPlan {
            name: voltage,
            plan: Plan::InverseAffine {
                input: ain(name, i),
                slope: TC_SLOPE_BITS,
                offset: TC_OFFSET_BITS,
            },
        },
        NamedPlan {
            name: text::numbered(name + "_tc_"@, (i - 12) as nat, "_temp_K"@),
            plan: Plan::TcKtype {
                voltage: voltage + ".y"@,
                cold_junction: name + "_rtd_"@ + "cj"@ + "_temp_K"@ + ".temperature_K"@,
            },
        },
    ]
}

/// The first `n` calculations of currents.
pub open spec fn currents(name: Seq<char>, n: nat) -> Seq<NamedPlan>
    decreases n,
{
    if n == 0 {
        Seq::empty()
    } else {
        currents(name, (n - 1) as nat).push(current_plan(name, n + 1))
    }
}

/// The first `n` pairs of calculations of resistances and temperatures.
pub open spec fn rtds(name: Seq<char>, n: nat) -> Seq<NamedPlan>
    decreases n,
{
    if n == 0 {
        Seq::empty()
    } else {
        rtds(name, (n - 1) as nat) + rtd_plans(name, n + 7, text::nat_text(n))
    }
}

/// The first `n` pairs of calculations of thermocouples.
pub open spec fn tcs(name: Seq<char>, n: nat) -> Seq<NamedPlan>
    decreases n,
{
    if n == 0 {
        Seq::empty()
    } else {
        tcs(name, (n - 1) as nat) + tc_plans(name, n + 12)
    }
}

/// The standard calculations of a board: temperature and bus voltage, six
/// currents, five RTDs and the cold junction, five thermocouples.
pub open spec fn standard_plans(name: Seq<char>) -> Seq<NamedPlan> {
    seq![
        NamedPlan {
            name: name + "_board_temp_K"@,
            plan: Plan::Constant { value: BOARD_TEMP_BITS },
        },
        NamedPlan {
            name: name + "_module_bus_voltage_V"@,
            plan: Plan::Affine { input: ain(name, 1), slope: BUS_SCALE_BITS, offset: 0 },
        },
    ] + currents(name, 6) + rtds(name, 5) + rtd_plans(name, 0, "cj"@) + tcs(name, 5)
}

fn with(name: &str, end: &str) -> (s: String)
    ensures
        s@ == name@ + end@,
{
    let mut s = name.to_owned();
    s.push_str(end);
    s
}

fn ain_name(name: &str, i: usize) -> (s: String)
    ensures
        s@ == ain(name@, i as nat),
{
    let mut s = with(name, ".ain");
    push_nat(&mut s, i as u128);
    s.push_str("");
    s
}

fn numbered_name(name: &str, middle: &str, n: usize, end: &str) -> (s: String)
    ensures
        s@ == text::numbered(name@ + middle@, n as nat, end@),
{
    let mut s = with(name, middle);
    push_nat(&mut s, n as u128);
    s.push_str(end);
    s
}

proof fn lemma_plans_push(v: Seq<NamedCalc>, c: NamedCalc)
    ensures
        plans(v.push(c)) == plans(v).push(c.named()),
{
    assert(plans(v.push(c)) =~= plans(v).push(c.named()));
}

fn push_calc(v: &mut Vec<NamedCalc>, name: String, calc: CalcPlan)
    ensures
        plans(final(v)@) == plans(old(v)@).push(
            NamedPlan { name: name@, plan: calc.plan() },
        ),
{
    proof {
        lemma_plans_push(v@, NamedCalc { name, calc });
    }
    v.push(NamedCalc { name, calc });
}

fn push_rtd(v: &mut Vec<NamedCalc>, name: &str, i: usize, rtd: &str)
    ensures
        plans(final(v)@) == plans(old(v)@) + rtd_plans(name@, i as nat, rtd@),
{
    let mut start = with(name, "_rtd_");
    start.push_str(rtd);
    let resistance = with(start.as_str(), "_resistance_ohm");
    let temperature = with(start.as_str(), "_temp_K");
    let input = with(resistance.as_str(), ".y");
    push_calc(
        v,
        resistance,
        CalcPlan::InverseAffine {
            input: ain_name(name, i),
            slope: Real::from_bits(RTD_SLOPE_BITS),
            offset: Real::zero(),
        },
    );
    push_calc(v, temperature, CalcPlan::RtdPt100 { resistance: input });
    assert(plans(v@) =~= plans(old(v)@) + rtd_plans(name@, i as nat, rtd@));
}

fn push_tc(v: &mut Vec<NamedCalc>, name: &str, i: usize)
    requires
        12 <= i,
    ensures
        plans(final(v)@) == plans(old(v)@) + tc_plans(name@, i as nat),
{
    let voltage = numbered_name(name, "_tc_", i - 12, "_voltage_V");
    let temperature = numbered_name(name, "_tc_", i - 12, "_temp_K");
    let input = with(voltage.as_str(), ".y");
    let mut cold_junction = with(name, "_rtd_");
    cold_junction.push_str("cj");
    cold_junction.push_str("_temp_K");
    cold_junction.push_str(".temperature_K");
    push_calc(
        v,
        voltage,
        CalcPlan::InverseAffine {
            input: ain_name(name, i),
            slope: Real::from_bits(TC_SLOPE_BITS),
            offset: Real::from_bits(TC_OFFSET_BITS),
        },
    );
    push_calc(v, temperature, CalcPlan::TcKtype { voltage: input, cold_junction });
    assert(plans(v@) =~= plans(old(v)@) + tc_plans(name@, i as nat));
}

impl AnalogIRev2 {
    /// The standard set of calculations that convert the raw outputs into a useable
    /// format.
    pub fn standard_calcs(&self, name: &str) -> (v: Vec<NamedCalc>)
        ensures
            plans(v@) == standard_plans(name@),
    {
        let mut v: Vec<NamedCalc> = Vec::new();
        push_calc(
            &mut v,
            with(name, "_board_temp_K"),
            CalcPlan::Constant { value: Real::from_bits(BOARD_TEMP_BITS) },
        );
        push_calc(
            &mut v,
            with(name, "_module_bus_voltage_V"),
            CalcPlan::Affine {
                input: ain_name(name, 1),
                slope: Real::from_bits(BUS_SCALE_BITS),
                offset: Real::zero(),
            },
        );
        let ghost start = plans(v@);
        let mut n: usize = 0;
        assert(start + currents(name@, 0) =~= start);
        while n < 6
            invariant
                n <= 6,
                plans(v@) == start + currents(name@, n as nat),
            decreases 6 - n,
        {
            let ghost before = plans(v@);
            push_calc(
                &mut v,
                numbered_name(name, "_4_20_mA_", n + 1, "_A"),
                CalcPlan::InverseAffine {
                    input: ain_name(name, n + 2),
                    slope: Real::from_bits(SHUNT_BITS),
                    offset: Real::zero(),
                },
            );
            assert(plans(v@) == before.push(current_plan(name@, (n + 2) as nat)));
            n = n + 1;
            assert(plans(v@) =~= start + currents(name@, n as nat));
        }
        let ghost start = plans(v@);
        n = 0;
        assert(start + rtds(name@, 0) =~= start);
        while n < 5
            invariant
                n <= 5,
                plans(v@) == start + rtds(name@, n as nat),
            decreases 5 - n,
        {
            let mut number = String::new();
            push_nat(&mut number, (n + 1) as u128);
            assert(number@ =~= text::nat_text((n + 1) as nat));
            push_rtd(&mut v, name, n + 8, number.as_str());
            n = n + 1;
            assert(plans(v@) =~= start + rtds(name@, n as nat));
        }
        push_rtd(&mut v, name, 0, "cj");
        let ghost start = plans(v@);
        n = 0;
        assert(start + tcs(name@, 0) =~= start);
        while n < 5
            invariant
                n <= 5,
                plans(v@) == start + tcs(name@, n as nat),
            decreases 5 - n,
        {
            push_tc(&mut v, name, n + 13);
            n = n + 1;
            assert(plans(v@) =~= start + tcs(name@, n as nat));
        }
        assert(plans(v@) =~= standard_plans(name@));
        v
    }
}

/// The raw channel that a calculation reads, if it reads one.
pub open spec fn raw_input(plan: Plan) -> Option<Seq<char>> {
    match plan {
        Plan::Affine { input, .. } => Some(input),
        Plan::InverseAffine { input, .. } => Some(input),
        _ => None,
    }
}

/// The parts of the standard calculations and where they start.
proof fn lemma_layout(name: Seq<char>)
    ensures
        standard_plans(name).len() == 30,
        currents(name, 6).len() == 6,
        rtds(name, 5).len() == 10,
        tcs(name, 5).len() == 10,
        forall|k: int|
            1 <= k <= 6 ==> standard_plans(name)[1 + k] == #[trigger] current_plan(
                name,
                (k + 1) as nat,
            ),
        forall|k: int|
            1 <= k <= 5 ==> standard_plans(name)[6 + 2 * k] == (#[trigger] rtd_plans(
                name,
                (k + 7) as nat,
                text::nat_text(k as nat),
            ))[0] && standard_plans(name)[7 + 2 * k] == rtd_plans(
                name,
                (k + 7) as nat,
                text::nat_text(k as nat),
            )[1],
        standard_plans(name)[18] == rtd_plans(name, 0, "cj"@)[0],
        standard_plans(name)[19] == rtd_plans(name, 0, "cj"@)[1],
        forall|k: int|
            1 <= k <= 5 ==> standard_plans(name)[18 + 2 * k] == (#[trigger] tc_plans(
                name,
                (k + 12) as nat,
            ))[0] && standard_plans(name)[19 + 2 * k] == tc_plans(name, (k + 12) as nat)[1],
{
    lemma_currents(name, 6);
    lemma_rtds(name, 5);
    lemma_tcs(name, 5);
}

proof fn lemma_currents(name: Seq<char>, n: nat)
    ensures
        currents(name, n).len() == n,
        forall|k: int|
            1 <= k <= n ==> currents(name, n)[k - 1] == #[trigger] current_plan(
                name,
                (k + 1) as nat,
            ),
    decreases n,
{
    if n > 0 {
        lemma_currents(name, (n - 1) as nat);
    }
}

proof fn lemma_rtds(name: Seq<char>, n: nat)
    ensures
        rtds(name, n).len() == 2 * n,
        forall|k: int|
            1 <= k <= n ==> rtds(name, n)[2 * k - 2] == (#[trigger] rtd_plans(
                name,
                (k + 7) as nat,
                text::nat_text(k as nat),
            ))[0] && rtds(name, n)[2 * k - 1] == rtd_plans(
                name,
                (k + 7) as nat,
                text::nat_text(k as nat),
            )[1],
    decreases n,
{
    if n > 0 {
        lemma_rtds(name, (n - 1) as nat);
    }
}

proof fn lemma_tcs(name: Seq<char>, n: nat)
    ensures
        tcs(name, n).len() == 2 * n,
        forall|k: int|
            1 <= k <= n ==> tcs(name, n)[2 * k - 2] == (#[trigger] tc_plans(
                name,
                (k + 12) as nat,
            ))[0] && tcs(name, n)[2 * k - 1] == tc_plans(name, (k + 12) as nat)[1],
    decreases n,
{
    if n > 0 {
        lemma_tcs(name, (n - 1) as nat);
    }
}

/// The name of a raw channel.
proof fn lemma_ain(name: Seq<char>, i: nat)
    ensures
        ain(name, i) == name + ".ain"@ + text::nat_text(i),
{
    reveal_strlit("");
    assert(ain(name, i) =~= name + ".ain"@ + text::nat_text(i));
}

/// Among the standard calculations is the current of each of the six inputs: the
/// calculation of current `k` reads the raw channel `k + 1` over a shunt of 100 ohm.
pub proof fn law_currents_read_their_channels(name: Seq<char>, k: nat)
    requires
        1 <= k <= 6,
    ensures
        ({
            let calc = standard_plans(name)[1 + k as int];
            &&& calc.name == name + "_4_20_mA_"@ + text::nat_text(k) + "_A"@
            &&& calc.plan matches Plan::InverseAffine { input, slope, offset } && {
                &&& input == name + ".ain"@ + text::nat_text(k + 1)
                &&& binary64::is_about(Real { bits: slope }, 100, 1)
                &&& offset == 0
            }
        }),
{
    lemma_layout(name);
    lemma_ain(name, k + 1);
    assert(standard_plans(name)[1 + k as int] == current_plan(name, k + 1));
    assert(binary64::is_about(Real { bits: SHUNT_BITS }, 100, 1)) by {
        binary64::lemma_powers_of_two();
    }
}

/// Among the standard calculations are the resistance and the temperature of each of
/// the five RTDs: that of RTD `k` reads the raw channel `k + 7`, and its temperature
/// is that of its own resistance.
pub proof fn law_rtds_read_their_channels(name: Seq<char>, k: nat)
    requires
        1 <= k <= 5,
    ensures
        ({
            let resistance = standard_plans(name)[6 + 2 * k as int];
            let temperature = standard_plans(name)[7 + 2 * k as int];
            &&& resistance.name == name + "_rtd_"@ + text::nat_text(k) + "_resistance_ohm"@
            &&& resistance.plan matches Plan::InverseAffine { input, slope, offset } && {
                &&& input == name + ".ain"@ + text::nat_text(k + 7)
                &&& binary64::is_about(Real { bits: slope }, 6425, 1_000_000)
                &&& offset == 0
            }
            &&& temperature.name == name + "_rtd_"@ + text::nat_text(k) + "_temp_K"@
            &&& temperature.plan matches Plan::RtdPt100 { resistance: input } && input
                == resistance.name + ".y"@
        }),
{
    lemma_layout(name);
    lemma_ain(name, k + 7);
    let i = k as int;
    let plans = rtd_plans(name, (i + 7) as nat, text::nat_text(i as nat));
    assert(standard_plans(name)[6 + 2 * k as int] == plans[0]);
    lemma_rtd_slope();
}

proof fn lemma_rtd_slope()
    ensures
        binary64::is_about(Real { bits: RTD_SLOPE_BITS }, 6425, 1_000_000),
{
    binary64::lemma_powers_of_two();
}

/// The cold junction is one more RTD, on the raw channel 0.
pub proof fn law_cold_junction_reads_its_channel(name: Seq<char>)
    ensures
        ({
            let resistance = standard_plans(name)[18];
            let temperature = standard_plans(name)[19];
            &&& resistance.name == name + "_rtd_cj_resistance_ohm"@
            &&& resistance.plan matches Plan::InverseAffine { input, slope, offset } && {
                &&& input == name + ".ain0"@
                &&& binary64::is_about(Real { bits: slope }, 6425, 1_000_000)
                &&& offset == 0
            }
            &&& temperature.name == name + "_rtd_cj_temp_K"@
            &&& temperature.plan matches Plan::RtdPt100 { resistance: input } && input
                == resistance.name + ".y"@
        }),
{
    lemma_layout(name);
    lemma_ain(name, 0);
    lemma_rtd_slope();
    reveal_strlit(".ain");
    reveal_strlit(".ain0");
    reveal_strlit("_rtd_");
    reveal_strlit("cj");
    reveal_strlit("_resistance_ohm");
    reveal_strlit("_rtd_cj_resistance_ohm");
    reveal_strlit("_temp_K");
    reveal_strlit("_rtd_cj_temp_K");
    assert(text::nat_text(0) =~= seq!['0']);
    assert(name + ".ain"@ + text::nat_text(0) =~= name + ".ain0"@);
    assert(name + "_rtd_"@ + "cj"@ + "_resistance_ohm"@ =~= name + "_rtd_cj_resistance_ohm"@);
    assert(name + "_rtd_"@ + "cj"@ + "_temp_K"@ =~= name + "_rtd_cj_temp_K"@);
}

/// Among the standard calculations are the voltage and the temperature of each of
/// the five thermocouples: that of thermocouple `k` reads the raw channel `k + 12`,
/// and its temperature is that of its own voltage at the temperature of the cold
/// junction.
pub proof fn law_thermocouples_read_their_channels(name: Seq<char>, k: nat)
    requires
        1 <= k <= 5,
    ensures
        ({
            let voltage = standard_plans(name)[18 + 2 * k as int];
            let temperature = standard_plans(name)[19 + 2 * k as int];
            &&& voltage.name == name + "_tc_"@ + text::nat_text(k) + "_voltage_V"@
            &&& voltage.plan matches Plan::InverseAffine { input, slope, offset } && {
                &&& input == name + ".ain"@ + text::nat_text(k + 12)
                &&& binary64::is_about(Real { bits: slope }, 257, 10)
                &&& binary64::is_about(Real { bits: offset }, 1024, 1000)
            }
            &&& temperature.name == name + "_tc_"@ + text::nat_text(k) + "_temp_K"@
            &&& temperature.plan matches Plan::TcKtype { voltage: input, cold_junction } && {
                &&& input == voltage.name + ".y"@
                &&& cold_junction == standard_plans(name)[19].name + ".temperature_K"@
            }
        }),
{
    lemma_layout(name);
    lemma_ain(name, k + 12);
    let plans = tc_plans(name, k + 12);
    assert(standard_plans(name)[18 + 2 * k as int] == plans[0]);
    lemma_tc_scale();
}

proof fn lemma_tc_scale()
    ensures
        binary64::is_about(Real { bits: TC_SLOPE_BITS }, 257, 10),
        binary64::is_about(Real { bits: TC_OFFSET_BITS }, 1024, 1000),
{
    binary64::lemma_powers_of_two();
}

/// The board temperature is 273.15 K, and the bus voltage is three times that on
/// the raw channel 1.
pub proof fn law_board_calculations(name: Seq<char>)
    ensures
        ({
            let temperature = standard_plans(name)[0];
            let bus = standard_plans(name)[1];
            &&& temperature.name == name + "_board_temp_K"@
            &&& temperature.plan matches Plan::Constant { value } && binary64::is_about(
                Real { bits: value },
                27315,
                100,
            )
            &&& bus.name == name + "_module_bus_voltage_V"@
            &&& bus.plan matches Plan::Affine { input, slope, offset } && {
                &&& input == name + ".ain1"@
                &&& binary64::is_about(Real { bits: slope }, 3, 1)
                &&& offset == 0
            }
        }),
{
    lemma_layout(name);
    lemma_ain(name, 1);
    reveal_strlit(".ain");
    reveal_strlit(".ain1");
    assert(text::nat_text(1) =~= seq!['1']);
    assert(name + ".ain"@ + text::nat_text(1) =~= name + ".ain1"@);
    assert(binary64::is_about(Real { bits: BOARD_TEMP_BITS }, 27315, 100) && binary64::is_about(
        Real { bits: BUS_SCALE_BITS },
        3,
        1,
    )) by {
        binary64::lemma_powers_of_two();
    }
}

/// The raw channel of a standard calculation that reads one.
spec fn channel_at(i: int) -> nat {
    if i <= 7 {
        i as nat
    } else if i <= 16 {
        ((i - 8) / 2 + 8) as nat
    } else if i == 18 {
        0
    } else {
        ((i - 20) / 2 + 13) as nat
    }
}

proof fn lemma_channel_at(name: Seq<char>, i: int)
    requires
        0 <= i < 30,
        raw_input(standard_plans(name)[i].plan) is Some,
    ensures
        1 <= i <= 7 || 8 <= i <= 16 && i % 2 == 0 || i >= 18 && i % 2 == 0,
        raw_input(standard_plans(name)[i].plan) == Some(
            name + ".ain"@ + text::nat_text(channel_at(i)),
        ),
{
    lemma_layout(name);
    lemma_ain(name, 1);
    if 2 <= i <= 7 {
        law_currents_read_their_channels(name, (i - 1) as nat);
    } else if 8 <= i < 18 {
        let k = ((i - 6) / 2) as nat;
        law_rtds_read_their_channels(name, k);
        assert(i == 6 + 2 * k || i == 7 + 2 * k);
    } else if i >= 20 {
        let k = ((i - 18) / 2) as nat;
        law_thermocouples_read_their_channels(name, k);
        assert(i == 18 + 2 * k || i == 19 + 2 * k);
    } else if i >= 18 {
        lemma_ain(name, 0);
    }
}

/// No two standard calculations read the same raw channel.
pub proof fn law_each_channel_is_read_once(name: Seq<char>, i: int, j: int)
    requires
        0 <= i < j < standard_plans(name).len(),
        raw_input(standard_plans(name)[i].plan) is Some,
    ensures
        standard_plans(name).len() == 30,
        raw_input(standard_plans(name)[i].plan) != raw_input(standard_plans(name)[j].plan),
{
    lemma_layout(name);
    if raw_input(standard_plans(name)[j].plan) == raw_input(standard_plans(name)[i].plan) {
        lemma_channel_at(name, i);
        lemma_channel_at(name, j);
        let a = text::nat_text(channel_at(i));
        let b = text::nat_text(channel_at(j));
        let start = name + ".ain"@;
        assert((start + a).skip(start.len() as int) =~= a);
        assert((start + b).skip(start.len() as int) =~= b);
        text::lemma_nat_text_value(channel_at(i));
        text::lemma_nat_text_value(channel_at(j));
    }
}

/// A commanded frequency in range is kept but for what is behind its point, and one
/// beyond the range goes to its end. It is zero where the number is none.
pub proof fn law_frequencies_in_range_are_kept(x: Real)
    ensures
        x.nan() ==> whole_freq(x) == 0,
        x.lt(Real { bits: ONE_BITS }) ==> whole_freq(x) == 1,
        (Real { bits: binary64::TWO_TO_32_BITS }).le(x) ==> whole_freq(x) == u32::MAX,
        (Real { bits: ONE_BITS }).le(x) && x.le(Real { bits: MAX_FREQ_BITS }) ==> {
            let significand = binary64::LEADING + x.bits % binary64::LEADING;
            let one = binary64::two_to((1075 - x.bits / binary64::LEADING) as nat);
            whole_freq(x) * one <= significand < (whole_freq(x) + 1) * one
        },
        binary64::is_about(Real { bits: ONE_BITS }, 1, 1),
        binary64::is_about(Real { bits: MAX_FREQ_BITS }, 4_294_967_295, 1),
{
    binary64::lemma_powers_of_two();
    let one = Real { bits: ONE_BITS };
    let most = Real { bits: MAX_FREQ_BITS };
    binary64::lemma_whole_ends();
    if one.le(x) && x.le(most) {
        binary64::law_whole_part_is_below(x);
    }
}

} // verus!
