//! Controller-side SDG2042X representation and operating packet layout.

use vstd::prelude::*;
use crate::binary64;
use crate::binary64::Real;
use crate::peripheral::id::PeripheralId;
use crate::peripheral::instruments::packets;
use crate::peripheral::instruments::packets::{
    decode_values, encode_request, encode_response, has_nan, is_valid_response,
};
use crate::text;
use crate::text::push_nat;
use super::config;
use super::config::{ChannelConfig, CHANNEL_COUNT, ONE_BITS};

verus! {

/// Software model number for the integration.
pub const MODEL_NUMBER: u64 = 0x8000_0000_0000_0001;

/// Values of a channel.
pub const VALUES_PER_CHANNEL: usize = 6;

/// Values of both channels.
pub const INPUT_COUNT: usize = 12;

/// Size of a request.
pub const INPUT_SIZE: usize = 104;

/// The bits of one half, from which on a channel is enabled.
pub const HALF_BITS: u64 = 0x3fe0_0000_0000_0000;

/// Complete dynamic state for one output channel.
#[derive(Debug, Clone, Copy, PartialEq, Eq, Structural)]
pub struct ChannelState {
    pub enabled: Real,
    pub frequency_hz: Real,
    pub offset_voltage_v: Real,
    pub pulse_duty_cycle: Real,
    pub phase_deg: Real,
    pub stdev: Real,
}

/// The state of a disabled channel: all zero.
pub open spec fn safe_channel() -> ChannelState {
    ChannelState {
        enabled: binary64::zero(),
        frequency_hz: binary64::zero(),
        offset_voltage_v: binary64::zero(),
        pulse_duty_cycle: binary64::zero(),
        phase_deg: binary64::zero(),
        stdev: binary64::zero(),
    }
}

impl Default for ChannelState {
    fn default() -> (r: Self)
        ensures
            r == safe_channel(),
    {
        ChannelState {
            enabled: Real::zero(),
            frequency_hz: Real::zero(),
            offset_voltage_v: Real::zero(),
            pulse_duty_cycle: Real::zero(),
            phase_deg: Real::zero(),
            stdev: Real::zero(),
        }
    }
}

impl ChannelState {
    /// The values in the order of packets.
    pub open spec fn list(self) -> Seq<Real> {
        seq![
            self.enabled,
            self.frequency_hz,
            self.offset_voltage_v,
            self.pulse_duty_cycle,
            self.phase_deg,
            self.stdev,
        ]
    }

    /// The state of the six values from `at` on.
    pub open spec fn of(values: Seq<Real>, at: int) -> ChannelState {
        ChannelState {
            enabled: values[at],
            frequency_hz: values[at + 1],
            offset_voltage_v: values[at + 2],
            pulse_duty_cycle: values[at + 3],
            phase_deg: values[at + 4],
            stdev: values[at + 5],
        }
    }

    /// Reads a state from the six values from `at` on.
    pub fn from_values(values: &[Real], at: usize) -> (r: Self)
        requires
            at + VALUES_PER_CHANNEL <= values.len(),
        ensures
            r == ChannelState::of(values@, at as int),
    {
        ChannelState {
            enabled: values[at],
            frequency_hz: values[at + 1],
            offset_voltage_v: values[at + 2],
            pulse_duty_cycle: values[at + 3],
            phase_deg: values[at + 4],
            stdev: values[at + 5],
        }
    }

    /// Appends the values.
    pub fn write_values(self, values: &mut Vec<Real>)
        ensures
            final(values)@ == old(values)@ + self.list(),
    {
        values.push(self.enabled);
        values.push(self.frequency_hz);
        values.push(self.offset_voltage_v);
        values.push(self.pulse_duty_cycle);
        values.push(self.phase_deg);
        values.push(self.stdev);
        assert(values@ =~= old(values)@ + self.list());
    }

    /// Whether a value is NaN.
    pub fn contains_nan(self) -> (r: bool)
        ensures
            r == packets::some_nan(self.list()),
    {
        let mut values: Vec<Real> = Vec::new();
        self.write_values(&mut values);
        assert(values@ =~= self.list());
        has_nan(values.as_slice())
    }

    /// The command brought into the configured channel envelope.
    pub open spec fn normal(self, config: ChannelConfig) -> ChannelState {
        if packets::some_nan(self.list()) {
            safe_channel()
        } else {
            ChannelState {
                enabled: if config::number(HALF_BITS).le(self.enabled) {
                    config::number(ONE_BITS)
                } else {
                    binary64::zero()
                },
                frequency_hz: self.frequency_hz.clamped(
                    config.frequency_hz.0,
                    config.frequency_hz.1,
                ),
                offset_voltage_v: self.offset_voltage_v.clamped(
                    config.offset_voltage_v.0,
                    config.offset_voltage_v.1,
                ),
                pulse_duty_cycle: self.pulse_duty_cycle.clamped(
                    config.pulse_duty_cycle.0,
                    config.pulse_duty_cycle.1,
                ),
                phase_deg: self.phase_deg.clamped(config.phase_deg.0, config.phase_deg.1),
                stdev: self.stdev.clamped(config.stdev.0, config.stdev.1),
            }
        }
    }

    /// Whether each value is within its configured range, and the channel is plainly
    /// enabled or disabled.
    pub open spec fn within(self, config: ChannelConfig) -> bool {
        &&& self.enabled == binary64::zero() || self.enabled == config::number(ONE_BITS)
        &&& in_range(self.frequency_hz, config.frequency_hz)
        &&& in_range(self.offset_voltage_v, config.offset_voltage_v)
        &&& in_range(self.pulse_duty_cycle, config.pulse_duty_cycle)
        &&& in_range(self.phase_deg, config.phase_deg)
        &&& in_range(self.stdev, config.stdev)
    }

    /// Clamps a controller command to the configured channel envelope. A NaN in
    /// any field disables the channel rather than allowing a partial command to
    /// reach the instrument.
    pub fn normalized(self, config: &ChannelConfig) -> (r: Self)
        requires
            config.valid_ranges(),
        ensures
            r == self.normal(*config),
    {
        if self.contains_nan() {
            return ChannelState::default();
        }
        ChannelState {
            enabled: if Real::from_bits(HALF_BITS).at_most(self.enabled) {
                Real::from_bits(ONE_BITS)
            } else {
                Real::zero()
            },
            frequency_hz: self.frequency_hz.clamp(config.frequency_hz.0, config.frequency_hz.1),
            offset_voltage_v: self.offset_voltage_v.clamp(
                config.offset_voltage_v.0,
                config.offset_voltage_v.1,
            ),
            pulse_duty_cycle: self.pulse_duty_cycle.clamp(
                config.pulse_duty_cycle.0,
                config.pulse_duty_cycle.1,
            ),
            phase_deg: self.phase_deg.clamp(config.phase_deg.0, config.phase_deg.1),
            stdev: self.stdev.clamp(config.stdev.0, config.stdev.1),
        }
    }
}

/// Whether a number is within a range.
pub open spec fn in_range(x: Real, range: (Real, Real)) -> bool {
    range.0.le(x) && x.le(range.1)
}

/// Complete dynamic state for both output channels.
#[derive(Debug, Clone, Copy, PartialEq, Eq, Structural)]
pub struct InstrumentState {
    pub ch1: ChannelState,
    pub ch2: ChannelState,
}

/// Both channels disabled.
pub open spec fn safe_state() -> InstrumentState {
    InstrumentState { ch1: safe_channel(), ch2: safe_channel() }
}

impl Default for InstrumentState {
    fn default() -> (r: Self)
        ensures
            r == safe_state(),
    {
        InstrumentState { ch1: ChannelState::default(), ch2: ChannelState::default() }
    }
}

impl InstrumentState {
    /// The values in the order of packets.
    pub open spec fn list(self) -> Seq<Real> {
        self.ch1.list() + self.ch2.list()
    }

    /// The state of twelve values.
    pub open spec fn of(values: Seq<Real>) -> InstrumentState {
        InstrumentState { ch1: ChannelState::of(values, 0), ch2: ChannelState::of(values, 6) }
    }

    /// The command brought into the configured envelope.
    pub open spec fn normal(self, configs: [ChannelConfig; CHANNEL_COUNT]) -> InstrumentState {
        InstrumentState { ch1: self.ch1.normal(configs[0]), ch2: self.ch2.normal(configs[1]) }
    }

    /// Whether both channels are within their configured ranges.
    pub open spec fn within(self, configs: [ChannelConfig; CHANNEL_COUNT]) -> bool {
        self.ch1.within(configs[0]) && self.ch2.within(configs[1])
    }

    /// Reads a state from the first twelve values.
    pub fn from_values(values: &[Real]) -> (r: Self)
        requires
            values.len() >= INPUT_COUNT,
        ensures
            r == InstrumentState::of(values@),
    {
        InstrumentState {
            ch1: ChannelState::from_values(values, 0),
            ch2: ChannelState::from_values(values, VALUES_PER_CHANNEL),
        }
    }

    /// The state of each channel.
    pub fn channels(self) -> (r: [ChannelState; CHANNEL_COUNT])
        ensures
            r[0] == self.ch1,
            r[1] == self.ch2,
    {
        [self.ch1, self.ch2]
    }

    /// The values in the order of packets.
    pub fn values(self) -> (v: Vec<Real>)
        ensures
            v@ == self.list(),
    {
        let mut v: Vec<Real> = Vec::new();
        self.ch1.write_values(&mut v);
        self.ch2.write_values(&mut v);
        assert(v@ =~= self.list());
        v
    }

    /// Clamps a controller command to the configured envelope.
    pub fn normalized(self, configs: &[ChannelConfig; CHANNEL_COUNT]) -> (r: Self)
        requires
            configs[0].valid_ranges(),
            configs[1].valid_ranges(),
        ensures
            r == self.normal(*configs),
    {
        InstrumentState {
            ch1: self.ch1.normalized(&configs[0]),
            ch2: self.ch2.normalized(&configs[1]),
        }
    }
}

/// Encodes a controller packet with one coherent two-channel state.
pub fn write_request(id: u64, state: InstrumentState) -> (v: Vec<u8>)
    ensures
        v@ == packets::request_bytes(id, state.list()),
{
    encode_request(id, state.values().as_slice())
}

/// The state in a request.
pub open spec fn requested(packet: Seq<u8>) -> InstrumentState {
    InstrumentState::of(packets::values_at(packet, 8, INPUT_COUNT as nat))
}

/// Decodes the state of a request.
pub fn read_request(packet: &[u8]) -> (r: InstrumentState)
    requires
        packet.len() >= INPUT_SIZE,
    ensures
        r == requested(packet@),
{
    InstrumentState::from_values(decode_values(packet, 8, INPUT_COUNT).as_slice())
}

/// Encodes a response with the last completely applied state.
pub fn write_response(metrics: &[u8], state: InstrumentState) -> (v: Vec<u8>)
    ensures
        v@ == packets::response_bytes(metrics@, state.list()),
{
    encode_response(metrics, state.values().as_slice())
}

/// Pure controller-side representation.
#[derive(Debug, Clone, Copy, PartialEq, Eq, Structural)]
pub struct SiglentSdg2042X {
    /// Logical software serial number used in the peripheral ID.
    pub serial_number: u64,
}

/// The name of the field at an index.
pub open spec fn field_name(i: int) -> Seq<char> {
    if i == 0 {
        "enabled"@
    } else if i == 1 {
        "frequency_hz"@
    } else if i == 2 {
        "offset_voltage_v"@
    } else if i == 3 {
        "pulse_duty_cycle"@
    } else if i == 4 {
        "phase_deg"@
    } else {
        "stdev"@
    }
}

/// The name of a value: channel, infix and field.
pub open spec fn value_name(i: int, infix: Seq<char>) -> Seq<char> {
    "ch"@ + text::nat_text((i / 6 + 1) as nat) + "_"@ + infix + field_name(i % 6)
}

/// The names of all values, channel by channel.
pub open spec fn value_names(infix: Seq<char>) -> Seq<Seq<char>> {
    Seq::new(INPUT_COUNT as nat, |i: int| value_name(i, infix))
}

fn field_at(i: usize) -> (r: &'static str)
    ensures
        r@ == field_name(i as int),
{
    if i == 0 {
        "enabled"
    } else if i == 1 {
        "frequency_hz"
    } else if i == 2 {
        "offset_voltage_v"
    } else if i == 3 {
        "pulse_duty_cycle"
    } else if i == 4 {
        "phase_deg"
    } else {
        "stdev"
    }
}

/// The names of all values, channel by channel.
pub fn channel_names(infix: &str) -> (names: Vec<String>)
    ensures
        text::texts(names@) == value_names(infix@),
{
    broadcast use text::lemma_texts_push;

    let mut names: Vec<String> = Vec::new();
    let mut i: usize = 0;
    assert(text::texts(names@) =~= value_names(infix@).take(0));
    while i < INPUT_COUNT
        invariant
            i <= INPUT_COUNT,
            text::texts(names@) == value_names(infix@).take(i as int),
        decreases INPUT_COUNT - i,
    {
        let mut name = "ch".to_owned();
        push_nat(&mut name, (i / 6 + 1) as u128);
        name.push_str("_");
        name.push_str(infix);
        name.push_str(field_at(i % 6));
        let ghost before = text::texts(names@);
        names.push(name);
        assert(value_names(infix@)[i as int] == value_name(i as int, infix@));
        assert(text::texts(names@) == before.push(value_name(i as int, infix@)));
        assert(text::texts(names@) =~= value_names(infix@).take(i + 1));
        i = i + 1;
    }
    assert(value_names(infix@).take(INPUT_COUNT as int) =~= value_names(infix@));
    names
}

impl SiglentSdg2042X {
    /// Constructs the controller-side representation.
    pub fn new(serial_number: u64) -> (r: Self)
        ensures
            r.serial_number == serial_number,
    {
        SiglentSdg2042X { serial_number }
    }

    /// The identity of the peripheral.
    pub fn id(&self) -> (r: PeripheralId)
        ensures
            r == (PeripheralId { model_number: MODEL_NUMBER, serial_number: self.serial_number }),
    {
        PeripheralId { model_number: MODEL_NUMBER, serial_number: self.serial_number }
    }

    /// The commanded values of both channels.
    pub fn input_names(&self) -> (names: Vec<String>)
        ensures
            text::texts(names@) == value_names(""@),
    {
        channel_names("")
    }

    /// The applied values of both channels.
    pub fn output_names(&self) -> (names: Vec<String>)
        ensures
            text::texts(names@) == value_names("applied_"@),
    {
        channel_names("applied_")
    }

    /// Size of a request.
    pub fn operating_roundtrip_input_size(&self) -> (r: usize)
        ensures
            r == INPUT_SIZE,
    {
        INPUT_SIZE
    }

    /// Size of a response whose metrics have the given size.
    pub fn operating_roundtrip_output_size(&self, metrics_size: usize) -> (r: usize)
        requires
            metrics_size + 8 * INPUT_COUNT <= usize::MAX,
        ensures
            r == metrics_size + 8 * INPUT_COUNT,
    {
        metrics_size + 8 * INPUT_COUNT
    }

    /// Encodes a request from the first twelve input values.
    pub fn emit_operating_roundtrip(&self, id: u64, inputs: &[Real]) -> (v: Vec<u8>)
        requires
            inputs.len() >= INPUT_COUNT,
        ensures
            v@ == packets::request_bytes(id, inputs@.take(INPUT_COUNT as int)),
    {
        let v = write_request(id, InstrumentState::from_values(inputs));
        assert(InstrumentState::of(inputs@).list() =~= inputs@.take(INPUT_COUNT as int));
        v
    }

    /// Decodes the outputs of a response.
    pub fn parse_operating_roundtrip(&self, packet: &[u8], metrics_size: usize) -> (v: Vec<Real>)
        requires
            metrics_size + 8 * INPUT_COUNT <= packet.len(),
        ensures
            v@ == packets::values_at(packet@, metrics_size as int, INPUT_COUNT as nat),
    {
        decode_values(packet, metrics_size, INPUT_COUNT)
    }

    /// Tests a response for its size and for NaN.
    pub fn validate_operating_roundtrip(&self, packet: &[u8], metrics_size: usize) -> (r: bool)
        requires
            metrics_size + 8 * INPUT_COUNT <= usize::MAX,
        ensures
            r == packets::valid_response(packet@, metrics_size as nat, INPUT_COUNT as nat),
    {
        is_valid_response(packet, metrics_size, INPUT_COUNT)
    }
}

/// Whether a number lies in a range.
pub open spec fn inside(x: Real, range: (Real, Real)) -> bool {
    range.0.le(x) && x.le(range.1)
}

/// What reaches the instrument lies in the configured ranges, or the channel is
/// disabled.
pub proof fn law_commands_stay_in_the_envelope(state: ChannelState, config: ChannelConfig)
    requires
        config.valid_ranges(),
    ensures
        ({
            let r = state.normal(config);
            ||| packets::some_nan(state.list()) && r == safe_channel()
            ||| {
                &&& r.enabled == config::number(ONE_BITS) || r.enabled == binary64::zero()
                &&& inside(r.frequency_hz, config.frequency_hz)
                &&& inside(r.offset_voltage_v, config.offset_voltage_v)
                &&& inside(r.pulse_duty_cycle, config.pulse_duty_cycle)
                &&& inside(r.phase_deg, config.phase_deg)
                &&& inside(r.stdev, config.stdev)
            }
        }),
{
    lemma_no_nan(state);
}

proof fn lemma_no_nan(state: ChannelState)
    ensures
        packets::some_nan(state.list()) == (state.enabled.nan() || state.frequency_hz.nan()
            || state.offset_voltage_v.nan() || state.pulse_duty_cycle.nan()
            || state.phase_deg.nan() || state.stdev.nan()),
{
    let l = state.list();
    assert(l[0] == state.enabled);
    assert(l[1] == state.frequency_hz);
    assert(l[2] == state.offset_voltage_v);
    assert(l[3] == state.pulse_duty_cycle);
    assert(l[4] == state.phase_deg);
    assert(l[5] == state.stdev);
}

/// A command within the configured ranges stays as it is.
pub proof fn law_commands_in_range_are_kept(
    state: InstrumentState,
    configs: [ChannelConfig; CHANNEL_COUNT],
)
    requires
        state.within(configs),
    ensures
        state.normal(configs) == state,
{
    lemma_in_range_is_kept(state.ch1, configs[0]);
    lemma_in_range_is_kept(state.ch2, configs[1]);
}

proof fn lemma_in_range_is_kept(state: ChannelState, config: ChannelConfig)
    requires
        state.within(config),
    ensures
        state.normal(config) == state,
{
    let values = state.list();
    assert forall|i: int| 0 <= i < values.len() implies !(#[trigger] values[i]).nan() by {
        assert(!binary64::zero().nan() && !config::number(ONE_BITS).nan());
    }
    assert(!config::number(HALF_BITS).le(binary64::zero()));
    assert(config::number(HALF_BITS).le(config::number(ONE_BITS)));
}

/// A command that was clamped once stays as it is.
pub proof fn law_clamping_twice_changes_nothing(state: ChannelState, config: ChannelConfig)
    requires
        config.valid_ranges(),
        !packets::some_nan(state.list()),
    ensures
        state.normal(config).normal(config) == state.normal(config),
{
    lemma_no_nan(state);
    lemma_no_nan(state.normal(config));
}

/// A NaN in one channel disables that channel and leaves the command of the
/// other one alone.
pub proof fn law_nan_disables_its_channel_alone(
    state: InstrumentState,
    other: ChannelState,
    configs: [ChannelConfig; CHANNEL_COUNT],
)
    requires
        packets::some_nan(state.ch1.list()),
    ensures
        state.normal(configs).ch1 == safe_channel(),
        state.normal(configs).ch2 == (InstrumentState { ch1: other, ch2: state.ch2 }).normal(
            configs,
        ).ch2,
        (InstrumentState { ch1: state.ch2, ch2: state.ch1 }).normal(configs).ch2 == safe_channel(),
        (InstrumentState { ch1: state.ch2, ch2: state.ch1 }).normal(configs).ch1 == (
        InstrumentState { ch1: state.ch2, ch2: other }).normal(configs).ch1,
{
}

/// A state that is sent in a request comes back from it.
pub proof fn law_request_carries_the_state(id: u64, state: InstrumentState)
    ensures
        requested(packets::request_bytes(id, state.list())) == state,
{
    packets::law_request_reads_back(id, state.list());
    let v = packets::values_at(packets::request_bytes(id, state.list()), 8, 12);
    assert(v == state.list());
}

} // verus!
