//! SDG2042X connection, waveform, and safety configuration.

use vstd::prelude::*;
use crate::binary64;
use crate::binary64::Real;
use crate::peripheral::instruments::scpi;
use crate::peripheral::instruments::scpi::ScpiTcpConfig;
use crate::text;
use crate::text::{nat_string, push_nat};

verus! {

/// Number of output channels.
pub const CHANNEL_COUNT: usize = 2;

/// The bits of infinity.
pub const INFINITY_BITS: u64 = 0x7ff0_0000_0000_0000;

/// The bits of negative infinity.
pub const NEG_INFINITY_BITS: u64 = 0xfff0_0000_0000_0000;

/// The bits of 1.
pub const ONE_BITS: u64 = 0x3ff0_0000_0000_0000;

/// Supported basic waveforms.
#[derive(Debug, Clone, Copy, PartialEq, Eq, Structural)]
pub enum Waveform {
    /// Sinusoidal waveform.
    Sine,
    /// Square waveform.
    Square,
    /// Ramp or sawtooth waveform.
    Ramp,
    /// Pulse waveform.
    Pulse,
    /// Gaussian noise waveform.
    Noise,
    /// Constant DC waveform.
    Dc,
}

impl Waveform {
    /// The name of the waveform in commands.
    pub open spec fn name(self) -> Seq<char> {
        match self {
            Waveform::Sine => "SINE"@,
            Waveform::Square => "SQUARE"@,
            Waveform::Ramp => "RAMP"@,
            Waveform::Pulse => "PULSE"@,
            Waveform::Noise => "NOISE"@,
            Waveform::Dc => "DC"@,
        }
    }

    /// Whether the waveform repeats: it has a frequency and an amplitude.
    pub open spec fn periodic(self) -> bool {
        self != Waveform::Noise && self != Waveform::Dc
    }

    /// Whether the waveform has a duty cycle.
    pub open spec fn dutied(self) -> bool {
        self == Waveform::Square || self == Waveform::Pulse
    }

    /// Whether the waveform has a phase.
    pub open spec fn phased(self) -> bool {
        self == Waveform::Sine || self == Waveform::Square || self == Waveform::Ramp
    }

    /// The name of the waveform in commands.
    pub fn scpi(self) -> (r: &'static str)
        ensures
            r@ == self.name(),
    {
        match self {
            Waveform::Sine => "SINE",
            Waveform::Square => "SQUARE",
            Waveform::Ramp => "RAMP",
            Waveform::Pulse => "PULSE",
            Waveform::Noise => "NOISE",
            Waveform::Dc => "DC",
        }
    }

    /// Whether the waveform has a frequency.
    pub fn uses_frequency(self) -> (r: bool)
        ensures
            r == self.periodic(),
    {
        !matches!(self, Waveform::Noise | Waveform::Dc)
    }

    /// Whether the waveform has an amplitude.
    pub fn uses_amplitude(self) -> (r: bool)
        ensures
            r == self.periodic(),
    {
        !matches!(self, Waveform::Noise | Waveform::Dc)
    }

    /// Whether the waveform has an offset. Noise has a mean in its place.
    pub fn uses_offset(self) -> (r: bool)
        ensures
            r == (self != Waveform::Noise),
    {
        !matches!(self, Waveform::Noise)
    }

    /// Whether the waveform has a duty cycle.
    pub fn uses_duty(self) -> (r: bool)
        ensures
            r == self.dutied(),
    {
        matches!(self, Waveform::Square | Waveform::Pulse)
    }

    /// Whether the waveform has a phase.
    pub fn uses_phase(self) -> (r: bool)
        ensures
            r == self.phased(),
    {
        matches!(self, Waveform::Sine | Waveform::Square | Waveform::Ramp)
    }
}

/// Load presented to an output channel.
#[derive(Debug, Clone, Copy, PartialEq, Eq, Structural)]
pub enum Load {
    /// Highest supported numeric load, used to approximate a high-impedance sink.
    HighImpedance,
    /// Explicit load impedance in ohms, inclusive from 50 through 100,000.
    Ohms(u32),
}

impl Load {
    /// The load in commands.
    pub open spec fn name(self) -> Seq<char> {
        match self {
            Load::HighImpedance => "100000"@,
            Load::Ohms(ohms) => text::nat_text(ohms as nat),
        }
    }

    /// The fault of the load.
    pub open spec fn fault(self) -> Option<Seq<char>> {
        match self {
            Load::HighImpedance => None,
            Load::Ohms(ohms) => if 50 <= ohms <= 100_000 {
                None
            } else {
                Some("load "@ + text::nat_text(ohms as nat) + " ohms is outside 50..=100000"@)
            },
        }
    }

    /// Checks that an explicit load is in range.
    pub fn validate(self) -> (r: Result<(), String>)
        ensures
            match r {
                Ok(()) => self.fault() is None,
                Err(e) => self.fault() == Some(e@),
            },
    {
        match self {
            Load::HighImpedance => Ok(()),
            Load::Ohms(ohms) => {
                if 50 <= ohms && ohms <= 100_000 {
                    Ok(())
                } else {
                    let mut e = "load ".to_owned();
                    push_nat(&mut e, ohms as u128);
                    e.push_str(" ohms is outside 50..=100000");
                    Err(e)
                }
            },
        }
    }

    /// The load in commands. The generator keeps 50-ohm compensation for a named
    /// high impedance, so the highest numeric load stands for it.
    pub fn scpi(self) -> (s: String)
        ensures
            s@ == self.name(),
    {
        match self {
            Load::HighImpedance => "100000".to_owned(),
            Load::Ohms(ohms) => nat_string(ohms as u128),
        }
    }
}

/// Fixed channel settings and dynamic-command clamp ranges.
#[derive(Debug, Clone, Copy, PartialEq, Eq)]
pub struct ChannelConfig {
    /// Basic waveform selected whenever this channel is enabled.
    pub waveform: Waveform,
    /// Fixed peak-to-peak amplitude for sine, square, ramp, and pulse waveforms.
    pub amplitude_vpp: Real,
    /// Load used for output-level compensation.
    pub load: Load,
    /// Inclusive frequency clamp range in hertz.
    pub frequency_hz: (Real, Real),
    /// Inclusive DC offset or noise-mean clamp range in volts.
    pub offset_voltage_v: (Real, Real),
    /// Inclusive square/pulse duty-cycle clamp range as a fraction.
    pub pulse_duty_cycle: (Real, Real),
    /// Inclusive phase clamp range in degrees.
    pub phase_deg: (Real, Real),
    /// Inclusive noise standard-deviation clamp range in volts.
    pub stdev: (Real, Real),
}

/// The number with the given bits.
pub open spec fn number(bits: u64) -> Real {
    Real { bits }
}

/// The settings of a channel that nobody has configured: DC, high impedance, and
/// the ranges of the generator.
pub open spec fn default_channel() -> ChannelConfig {
    ChannelConfig {
        waveform: Waveform::Dc,
        amplitude_vpp: number(ONE_BITS),
        load: Load::HighImpedance,
        frequency_hz: (number(0x3eb0c6f7a0b5ed8d), number(0x418312d000000000)),
        offset_voltage_v: (number(0xc024000000000000), number(0x4024000000000000)),
        pulse_duty_cycle: (number(0), number(ONE_BITS)),
        phase_deg: (number(0), number(0x4076800000000000)),
        stdev: (number(0), number(0x4024000000000000)),
    }
}

impl Default for ChannelConfig {
    fn default() -> (r: Self)
        ensures
            r == default_channel(),
    {
        ChannelConfig {
            waveform: Waveform::Dc,
            amplitude_vpp: Real::from_bits(ONE_BITS),
            load: Load::HighImpedance,
            frequency_hz: (
                Real::from_bits(0x3eb0c6f7a0b5ed8d),
                Real::from_bits(0x418312d000000000),
            ),
            offset_voltage_v: (
                Real::from_bits(0xc024000000000000),
                Real::from_bits(0x4024000000000000),
            ),
            pulse_duty_cycle: (Real::zero(), Real::from_bits(ONE_BITS)),
            phase_deg: (Real::zero(), Real::from_bits(0x4076800000000000)),
            stdev: (Real::zero(), Real::from_bits(0x4024000000000000)),
        }
    }
}

/// Whether a range has bounds that are finite and do not descend.
pub open spec fn valid_range(range: (Real, Real)) -> bool {
    range.0.bits != NEG_INFINITY_BITS && range.1.bits != INFINITY_BITS && range.0.le(range.1)
}

/// The start of the errors of a channel.
pub open spec fn channel_text(channel: usize) -> Seq<char> {
    "channel "@ + text::nat_text(channel as nat) + ": "@
}

/// The error of a range that is not valid.
pub open spec fn range_error(name: Seq<char>, channel: usize) -> Seq<char> {
    channel_text(channel) + name + " range must contain finite ascending bounds"@
}

fn start_error(channel: usize) -> (s: String)
    ensures
        s@ == channel_text(channel),
{
    let mut s = "channel ".to_owned();
    push_nat(&mut s, channel as u128);
    s.push_str(": ");
    s
}

/// Checks that the bounds of a range are finite and do not descend.
pub fn validate_range(name: &str, range: (Real, Real), channel: usize) -> (r: Result<(), String>)
    ensures
        match r {
            Ok(()) => valid_range(range),
            Err(e) => !valid_range(range) && e@ == range_error(name@, channel),
        },
{
    if range.0.to_bits() != NEG_INFINITY_BITS && range.1.to_bits() != INFINITY_BITS
        && range.0.at_most(range.1) {
        Ok(())
    } else {
        let mut e = start_error(channel);
        e.push_str(name);
        e.push_str(" range must contain finite ascending bounds");
        Err(e)
    }
}

impl ChannelConfig {
    /// All clamp ranges are valid.
    pub open spec fn valid_ranges(self) -> bool {
        valid_range(self.frequency_hz) && valid_range(self.offset_voltage_v) && valid_range(
            self.pulse_duty_cycle,
        ) && valid_range(self.phase_deg) && valid_range(self.stdev)
    }

    /// The fault of the settings.
    pub open spec fn fault(self, channel: usize) -> Option<Seq<char>> {
        if let Some(e) = self.load.fault() {
            Some(channel_text(channel) + e)
        } else if self.waveform.periodic() && !self.amplitude_vpp.finite_positive() {
            Some(channel_text(channel) + "amplitude_vpp must be finite and positive"@)
        } else if !valid_range(self.frequency_hz) {
            Some(range_error("frequency_hz"@, channel))
        } else if !valid_range(self.offset_voltage_v) {
            Some(range_error("offset_voltage_v"@, channel))
        } else if !valid_range(self.pulse_duty_cycle) {
            Some(range_error("pulse_duty_cycle"@, channel))
        } else if !valid_range(self.phase_deg) {
            Some(range_error("phase_deg"@, channel))
        } else if !valid_range(self.stdev) {
            Some(range_error("stdev"@, channel))
        } else if self.pulse_duty_cycle.0.lt(binary64::zero()) || number(ONE_BITS).lt(
            self.pulse_duty_cycle.1,
        ) {
            Some(channel_text(channel) + "pulse_duty_cycle range must be within 0..=1"@)
        } else {
            None
        }
    }

    /// Checks the settings of a channel.
    pub fn validate(&self, channel: usize) -> (r: Result<(), String>)
        ensures
            match r {
                Ok(()) => self.fault(channel) is None,
                Err(e) => self.fault(channel) == Some(e@),
            },
    {
        if let Err(fault) = self.load.validate() {
            let mut e = start_error(channel);
            e.push_str(fault.as_str());
            return Err(e);
        }
        if self.waveform.uses_amplitude() && !self.amplitude_vpp.is_finite_positive() {
            let mut e = start_error(channel);
            e.push_str("amplitude_vpp must be finite and positive");
            return Err(e);
        }
        validate_range("frequency_hz", self.frequency_hz, channel)?;
        validate_range("offset_voltage_v", self.offset_voltage_v, channel)?;
        validate_range("pulse_duty_cycle", self.pulse_duty_cycle, channel)?;
        validate_range("phase_deg", self.phase_deg, channel)?;
        validate_range("stdev", self.stdev, channel)?;
        if self.pulse_duty_cycle.0.less(Real::zero()) || Real::from_bits(ONE_BITS).less(
            self.pulse_duty_cycle.1,
        ) {
            let mut e = start_error(channel);
            e.push_str("pulse_duty_cycle range must be within 0..=1");
            return Err(e);
        }
        Ok(())
    }
}

/// Connection and safety configuration.
#[derive(Debug, Clone, PartialEq)]
pub struct Config {
    /// Shared SCPI/TCP connection, identity, and timeout settings.
    pub connection: ScpiTcpConfig,
    /// Fixed settings and accepted dynamic ranges for channels 1 and 2.
    pub channels: [ChannelConfig; CHANNEL_COUNT],
}

impl Config {
    /// The fault of the settings.
    pub open spec fn fault(self) -> Option<Seq<char>> {
        if self.connection.fault() is Some {
            self.connection.fault()
        } else if self.channels[0].fault(1) is Some {
            self.channels[0].fault(1)
        } else {
            self.channels[1].fault(2)
        }
    }

    /// Builds a configuration from a host name or address, adding SCPI port
    /// 5025: both channels DC with high-impedance load compensation.
    pub fn new(host: &str, serial_number: u64) -> (r: Self)
        ensures
            r.connection.address@ == scpi::with_default_port(host@),
            r.connection.serial_number == serial_number,
            r.connection.expected_vendor@ == "SIGLENT"@,
            r.connection.expected_model@ == "SDG2042X"@,
            r.connection.connect_timeout.ns == 2_000_000_000,
            r.connection.read_timeout.ns == 250_000_000,
            r.connection.write_timeout.ns == 100_000_000,
            r.channels[0] == default_channel(),
            r.channels[1] == default_channel(),
    {
        Config {
            connection: ScpiTcpConfig::new(host, serial_number, "SIGLENT", "SDG2042X"),
            channels: [ChannelConfig::default(), ChannelConfig::default()],
        }
    }

    /// Checks the connection and both channels.
    pub fn validate(&self) -> (r: Result<(), String>)
        ensures
            match r {
                Ok(()) => self.fault() is None,
                Err(e) => self.fault() == Some(e@),
            },
    {
        self.connection.validate()?;
        self.channels[0].validate(1)?;
        self.channels[1].validate(2)
    }
}

/// A channel that nobody has configured is valid.
pub proof fn law_default_channel_is_valid(channel: usize)
    ensures
        default_channel().fault(channel) is None,
        default_channel().valid_ranges(),
{
}

/// A channel is accepted exactly where its load is one that the generator has, the
/// amplitude of a periodic waveform is finite and positive, each range is of numbers
/// and ascends between finite ends, and the duty cycle stays from zero to one.
pub proof fn law_channels_in_the_envelope_are_accepted(c: ChannelConfig, channel: usize)
    ensures
        c.fault(channel) is None <==> {
            &&& c.load matches Load::Ohms(ohms) ==> 50 <= ohms <= 100_000
            &&& c.waveform.periodic() ==> c.amplitude_vpp.finite_positive()
            &&& c.valid_ranges()
            &&& binary64::zero().le(c.pulse_duty_cycle.0)
            &&& c.pulse_duty_cycle.1.le(number(ONE_BITS))
        },
        binary64::is_about(number(ONE_BITS), 1, 1),
{
    binary64::lemma_powers_of_two();
}

/// A valid range has finite ends that ascend.
pub proof fn law_valid_ranges_hold_their_ends(range: (Real, Real))
    requires
        valid_range(range),
    ensures
        !range.0.nan() && !range.1.nan(),
        range.0.le(range.1),
        range.0.finite() && range.1.finite(),
{
}

/// The configuration is accepted exactly where the connection and both channels are.
pub proof fn law_configuration_has_three_parts(config: Config)
    ensures
        config.fault() is None <==> config.connection.fault() is None && config.channels[0].fault(1)
            is None && config.channels[1].fault(2) is None,
{
}

/// Only the sine, square, ramp and pulse have a frequency. The square and the pulse
/// have a duty cycle, and all of these but the pulse have a phase.
pub proof fn law_fields_of_the_waveforms(w: Waveform)
    ensures
        w.periodic() <==> w.dutied() || w.phased(),
        w.dutied() && w.phased() <==> w.name() == "SQUARE"@,
        w.dutied() && !w.phased() <==> w.name() == "PULSE"@,
        w.phased() && !w.dutied() <==> w.name() == "SINE"@ || w.name() == "RAMP"@,
{
    reveal_strlit("SINE");
    reveal_strlit("SQUARE");
    reveal_strlit("RAMP");
    reveal_strlit("PULSE");
    reveal_strlit("NOISE");
    reveal_strlit("DC");
    assert("SINE"@[0] == 'S' && "SINE"@.len() == 4);
    assert("SQUARE"@[0] == 'S' && "SQUARE"@.len() == 6);
    assert("RAMP"@[0] == 'R' && "RAMP"@.len() == 4);
    assert("PULSE"@[0] == 'P' && "PULSE"@.len() == 5);
    assert("NOISE"@[0] == 'N' && "NOISE"@.len() == 5);
    assert("DC"@.len() == 2);
}

/// A channel takes by default all that the generator can do: 1 uHz to 40 MHz, 10 V to
/// either side, any duty cycle and phase, and noise up to 10 V.
pub proof fn law_default_ranges()
    ensures
        ({
            let c = default_channel();
            &&& binary64::is_about(c.amplitude_vpp, 1, 1)
            &&& binary64::is_about(c.frequency_hz.0, 1, 1_000_000)
            &&& binary64::is_about(c.frequency_hz.1, 40_000_000, 1)
            &&& c.offset_voltage_v.0 == c.offset_voltage_v.1.negated()
            &&& binary64::is_about(c.offset_voltage_v.1, 10, 1)
            &&& c.pulse_duty_cycle.0 == binary64::zero()
            &&& binary64::is_about(c.pulse_duty_cycle.1, 1, 1)
            &&& c.phase_deg.0 == binary64::zero()
            &&& binary64::is_about(c.phase_deg.1, 360, 1)
            &&& c.stdev.0 == binary64::zero()
            &&& binary64::is_about(c.stdev.1, 10, 1)
        }),
{
    binary64::lemma_powers_of_two();
    assert(binary64::two_to(72) == 0x1_00_0000_0000_0000_0000) by {
        reveal_with_fuel(binary64::two_to, 9);
    }
}

} // verus!
