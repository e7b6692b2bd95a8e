//! Keithley DMM6500 DC-voltage and four-wire-resistance integration.
//!
//! A worker owns the connection and keeps reading. The responder repeats the
//! latest completed sample, its sequence number, and its age.

use vstd::prelude::*;
use crate::binary64::Real;
use crate::bytes;
use crate::peripheral::id::PeripheralId;
use crate::span;
use crate::span::Span;
use crate::text;
use crate::text::push_hex;
use super::packets;
use super::packets::{decode_values, encode_request, encode_response, is_valid_response, request_id};
use super::responder::WorkerStatus;
use super::scpi;
use super::scpi::ScpiTcpConfig;

verus! {

/// Software model number for the integration.
pub const MODEL_NUMBER: u64 = 0x8000_0000_0000_0002;

/// Size of a request.
pub const INPUT_SIZE: usize = 8;

/// Number of values in a response.
pub const OUTPUT_COUNT: usize = 3;

/// The largest sequence number that is reported: doubles hold all integers up to it.
pub const MAX_EXACT_INTEGER: u64 = 0x1f_ffff_ffff_ffff;

/// The magnitude bits of 9.9e37, from which on a reading is an overflow.
pub const OVERFLOW_READING_BITS: u64 = 0x47d29ead3677af6f;

/// Measurement function selected once during driver startup.
#[derive(Debug, Clone, Copy, PartialEq, Eq, Structural)]
pub enum Function {
    /// DC-voltage measurement: `None` enables autorange, `Some(volts)` selects a
    /// fixed range.
    DcVoltage { range_v: Option<Real> },
    /// Four-wire resistance measurement: `None` enables autorange, `Some(ohms)`
    /// selects a fixed range.
    FourWireResistance { range_ohm: Option<Real>, offset_compensation: bool },
}

impl Default for Function {
    fn default() -> (r: Self)
        ensures
            r == (Function::DcVoltage { range_v: None }),
    {
        Function::DcVoltage { range_v: None }
    }
}

/// What is measured.
#[derive(Debug, Clone, Copy, PartialEq, Eq, Structural)]
pub enum FunctionKind {
    DcVoltage,
    FourWireResistance,
}

impl Default for FunctionKind {
    fn default() -> (r: Self)
        ensures
            r == FunctionKind::DcVoltage,
    {
        FunctionKind::DcVoltage
    }
}

impl FunctionKind {
    /// The name of the measured value.
    pub open spec fn value_name(self) -> Seq<char> {
        match self {
            FunctionKind::DcVoltage => "voltage_v"@,
            FunctionKind::FourWireResistance => "resistance_ohm"@,
        }
    }

    /// The name of the measured value.
    pub fn output_name(self) -> (r: &'static str)
        ensures
            r@ == self.value_name(),
    {
        match self {
            FunctionKind::DcVoltage => "voltage_v",
            FunctionKind::FourWireResistance => "resistance_ohm",
        }
    }
}

impl Function {
    /// What is measured.
    pub open spec fn category(self) -> FunctionKind {
        match self {
            Function::DcVoltage { .. } => FunctionKind::DcVoltage,
            Function::FourWireResistance { .. } => FunctionKind::FourWireResistance,
        }
    }

    /// The fixed range.
    pub open spec fn fixed_range(self) -> Option<Real> {
        match self {
            Function::DcVoltage { range_v } => range_v,
            Function::FourWireResistance { range_ohm, .. } => range_ohm,
        }
    }

    /// The fault of the settings.
    pub open spec fn fault(self) -> Option<Seq<char>> {
        if self.fixed_range() matches Some(x) && !x.finite_positive() {
            Some(
                match self {
                    Function::DcVoltage { .. } => "range_v must be finite and positive when supplied"@,
                    Function::FourWireResistance { .. } => "range_ohm must be finite and positive when supplied"@,
                },
            )
        } else {
            None
        }
    }

    /// What is measured.
    pub fn kind(self) -> (r: FunctionKind)
        ensures
            r == self.category(),
    {
        match self {
            Function::DcVoltage { .. } => FunctionKind::DcVoltage,
            Function::FourWireResistance { .. } => FunctionKind::FourWireResistance,
        }
    }

    /// Checks that a fixed range is finite and positive.
    pub fn validate(self) -> (r: Result<(), String>)
        ensures
            match r {
                Ok(()) => self.fault() is None,
                Err(e) => self.fault() == Some(e@),
            },
    {
        match self {
            Function::DcVoltage { range_v } => {
                if let Some(x) = range_v {
                    if !x.is_finite_positive() {
                        return Err("range_v must be finite and positive when supplied".to_owned());
                    }
                }
            },
            Function::FourWireResistance { range_ohm, .. } => {
                if let Some(x) = range_ohm {
                    if !x.is_finite_positive() {
                        return Err("range_ohm must be finite and positive when supplied".to_owned());
                    }
                }
            },
        }
        Ok(())
    }
}

/// Connection and measurement configuration.
#[derive(Debug, Clone, PartialEq)]
pub struct Config {
    /// Connection, identity, and timeout settings. The driver raises the read
    /// timeout where the aperture requires longer.
    pub connection: ScpiTcpConfig,
    /// Measurement function fixed for the run.
    pub function: Function,
    /// Integration aperture in power-line cycles.
    pub nplc: Real,
    /// Whether automatic zero correction is enabled.
    pub autozero: bool,
}

/// The bits of 1.
pub const ONE_BITS: u64 = 0x3ff0000000000000;

/// Processing time that a measurement or a startup may take on top.
pub const MARGIN_MS: u64 = 250;

impl Config {
    /// The fault of the settings.
    pub open spec fn fault(self) -> Option<Seq<char>> {
        if self.connection.fault() is Some {
            self.connection.fault()
        } else if !self.nplc.finite_positive() {
            Some("nplc must be finite and positive"@)
        } else {
            self.function.fault()
        }
    }

    /// Number of apertures in one reading: automatic zero takes two more, and
    /// offset compensation doubles all.
    pub open spec fn apertures(self) -> int {
        let once = if self.autozero {
            3int
        } else {
            1
        };
        match self.function {
            Function::FourWireResistance { offset_compensation, .. } => if offset_compensation {
                2 * once
            } else {
                once
            },
            _ => once,
        }
    }

    /// The time of a complete reading in nanoseconds, given that of its apertures.
    pub open spec fn read_ns(self, aperture_ns: int) -> int {
        let estimated = span::saturated(aperture_ns + MARGIN_MS * 1_000_000);
        if self.connection.read_timeout.ns >= estimated {
            self.connection.read_timeout.ns as int
        } else {
            estimated
        }
    }

    /// Builds a configuration from a host name or address, adding SCPI port
    /// 5025: autoranging DC voltage, one power-line cycle, automatic zero.
    pub fn new(host: &str, serial_number: u64) -> (r: Self)
        ensures
            r.connection.address@ == scpi::with_default_port(host@),
            r.connection.serial_number == serial_number,
            r.connection.expected_vendor@ == "KEITHLEY"@,
            r.connection.expected_model@ == "DMM6500"@,
            r.connection.connect_timeout.ns == 2_000_000_000,
            r.connection.read_timeout.ns == 250_000_000,
            r.connection.write_timeout.ns == 100_000_000,
            r.function == (Function::DcVoltage { range_v: None }),
            r.nplc.bits == ONE_BITS,
            r.autozero,
    {
        Config {
            connection: ScpiTcpConfig::new(host, serial_number, "KEITHLEY", "DMM6500"),
            function: Function::DcVoltage { range_v: None },
            nplc: Real::from_bits(ONE_BITS),
            autozero: true,
        }
    }

    /// Checks connection, aperture and function settings.
    pub fn validate(&self) -> (r: Result<(), String>)
        ensures
            match r {
                Ok(()) => self.fault() is None,
                Err(e) => self.fault() == Some(e@),
            },
    {
        self.connection.validate()?;
        if !self.nplc.is_finite_positive() {
            return Err("nplc must be finite and positive".to_owned());
        }
        self.function.validate()
    }

    /// Number of apertures in one reading.
    pub fn aperture_count(&self) -> (r: u8)
        ensures
            r == self.apertures(),
    {
        let once: u8 = if self.autozero {
            3
        } else {
            1
        };
        match self.function {
            Function::FourWireResistance { offset_compensation, .. } => if offset_compensation {
                2 * once
            } else {
                once
            },
            _ => once,
        }
    }

    /// The time of a complete reading, given that of its apertures.
    pub fn measurement_read_timeout(&self, aperture: Span) -> (r: Span)
        requires
            aperture.valid(),
            self.connection.valid_timeouts(),
        ensures
            r.ns == self.read_ns(aperture.ns as int),
            r.valid(),
    {
        let estimated = aperture.saturating_add(Span::from_millis(MARGIN_MS));
        self.connection.read_timeout.longer(estimated)
    }

    /// Socket settings with enough read time for the aperture.
    pub fn effective_connection(&self, aperture: Span) -> (r: ScpiTcpConfig)
        requires
            aperture.valid(),
            self.connection.valid_timeouts(),
        ensures
            r.address@ == self.connection.address@,
            r.serial_number == self.connection.serial_number,
            r.expected_vendor@ == self.connection.expected_vendor@,
            r.expected_model@ == self.connection.expected_model@,
            r.connect_timeout == self.connection.connect_timeout,
            r.read_timeout.ns == self.read_ns(aperture.ns as int),
            r.write_timeout == self.connection.write_timeout,
    {
        ScpiTcpConfig {
            address: self.connection.address.as_str().to_owned(),
            serial_number: self.connection.serial_number,
            expected_vendor: self.connection.expected_vendor.as_str().to_owned(),
            expected_model: self.connection.expected_model.as_str().to_owned(),
            connect_timeout: self.connection.connect_timeout,
            read_timeout: self.measurement_read_timeout(aperture),
            write_timeout: self.connection.write_timeout,
        }
    }

    /// Budgets identity, configuration, and the first complete measurement.
    pub fn startup_timeout(&self, aperture: Span) -> (r: Span)
        requires
            aperture.valid(),
            self.connection.valid_timeouts(),
        ensures
            r.ns == self.connection.startup_ns(
                1,
                if self.function.category() == FunctionKind::DcVoltage {
                    7
                } else {
                    8
                },
                span::saturated(self.read_ns(aperture.ns as int) + MARGIN_MS * 1_000_000),
            ),
            r.valid(),
    {
        let commands: u32 = match self.function {
            Function::DcVoltage { .. } => 7,
            Function::FourWireResistance { .. } => 8,
        };
        let additional = self.measurement_read_timeout(aperture).saturating_add(
            Span::from_millis(MARGIN_MS),
        );
        self.connection.startup_timeout(1, commands, additional)
    }
}

/// Pure controller-side representation.
#[derive(Debug, Clone, Copy, PartialEq, Eq, Structural)]
pub struct KeithleyDmm6500 {
    /// Logical software serial number used in the peripheral ID.
    pub serial_number: u64,
    /// What is measured, which names the first output.
    pub function: FunctionKind,
}

impl KeithleyDmm6500 {
    /// Constructs the controller-side representation of a voltmeter.
    pub fn new(serial_number: u64) -> (r: Self)
        ensures
            r == (KeithleyDmm6500 { serial_number, function: FunctionKind::DcVoltage }),
    {
        KeithleyDmm6500 { serial_number, function: FunctionKind::DcVoltage }
    }

    /// Constructs the controller-side representation for a function.
    pub fn with_function(serial_number: u64, function: Function) -> (r: Self)
        ensures
            r == (KeithleyDmm6500 { serial_number, function: function.category() }),
    {
        KeithleyDmm6500 { serial_number, function: function.kind() }
    }

    /// The identity of the peripheral.
    pub fn id(&self) -> (r: PeripheralId)
        ensures
            r == (PeripheralId { model_number: MODEL_NUMBER, serial_number: self.serial_number }),
    {
        PeripheralId { model_number: MODEL_NUMBER, serial_number: self.serial_number }
    }

    /// There are no inputs.
    pub fn input_names(&self) -> (r: Vec<String>)
        ensures
            r@.len() == 0,
    {
        Vec::new()
    }

    /// The outputs: value, sequence number and age of the latest sample.
    pub fn output_names(&self) -> (r: Vec<String>)
        ensures
            text::texts(r@) == seq![self.function.value_name(), "sample_sequence"@, "sample_age_s"@],
    {
        let mut r: Vec<String> = Vec::new();
        r.push(self.function.output_name().to_owned());
        r.push("sample_sequence".to_owned());
        r.push("sample_age_s".to_owned());
        assert(text::texts(r@) =~= seq![
            self.function.value_name(),
            "sample_sequence"@,
            "sample_age_s"@,
        ]);
        r
    }

    /// Size of a request.
    pub fn operating_roundtrip_input_size(&self) -> (r: usize)
        ensures
            r == INPUT_SIZE,
    {
        INPUT_SIZE
    }

    /// Size of a response whose metrics have the given size.
    pub fn operating_roundtrip_output_size(&self, metrics_size: usize) -> (r: usize)
        requires
            metrics_size + 8 * OUTPUT_COUNT <= usize::MAX,
        ensures
            r == metrics_size + 8 * OUTPUT_COUNT,
    {
        metrics_size + 8 * OUTPUT_COUNT
    }

    /// Encodes a request: the packet ID alone.
    pub fn emit_operating_roundtrip(&self, id: u64) -> (v: Vec<u8>)
        ensures
            v@ == packets::request_bytes(id, Seq::empty()),
    {
        let none: Vec<Real> = Vec::new();
        encode_request(id, none.as_slice())
    }

    /// Decodes the outputs of a response.
    pub fn parse_operating_roundtrip(&self, packet: &[u8], metrics_size: usize) -> (v: Vec<Real>)
        requires
            metrics_size + 8 * OUTPUT_COUNT <= packet.len(),
        ensures
            v@ == packets::values_at(packet@, metrics_size as int, OUTPUT_COUNT as nat),
    {
        decode_values(packet, metrics_size, OUTPUT_COUNT)
    }

    /// Tests a response for its size and for NaN.
    pub fn validate_operating_roundtrip(&self, packet: &[u8], metrics_size: usize) -> (r: bool)
        requires
            metrics_size + 8 * OUTPUT_COUNT <= usize::MAX,
        ensures
            r == packets::valid_response(packet@, metrics_size as nat, OUTPUT_COUNT as nat),
    {
        is_valid_response(packet, metrics_size, OUTPUT_COUNT)
    }
}

/// Latest complete measurement published by the worker. Times are nanoseconds of
/// a monotonic clock.
#[derive(Debug)]
pub struct State {
    pub value: Real,
    pub sample_sequence: u64,
    pub sampled_at_ns: u64,
    pub status: WorkerStatus,
}

/// The part of a response that is not yet a number: the value, the sequence
/// number as it is reported, and the age of the sample.
#[derive(Debug, Clone, Copy, PartialEq, Eq, Structural)]
pub struct Sample {
    pub value: Real,
    pub reported_sequence: u64,
    pub age_ns: u64,
}

impl State {
    /// No sample yet.
    pub fn new(now_ns: u64) -> (r: Self)
        ensures
            r.value.bits == 0,
            r.sample_sequence == 0,
            r.sampled_at_ns == now_ns,
            r.status.identity is None,
            r.status.error is None,
    {
        State {
            value: Real::zero(),
            sample_sequence: 0,
            sampled_at_ns: now_ns,
            status: WorkerStatus { identity: None, error: None },
        }
    }

    /// Publishes a complete reading.
    pub fn publish_sample(&mut self, value: Real, now_ns: u64)
        ensures
            final(self).value == value,
            final(self).sample_sequence == if old(self).sample_sequence == u64::MAX {
                0
            } else {
                (old(self).sample_sequence + 1) as u64
            },
            final(self).sampled_at_ns == now_ns,
            final(self).status == old(self).status,
    {
        self.value = value;
        self.sample_sequence = self.sample_sequence.wrapping_add(1);
        self.sampled_at_ns = now_ns;
    }

    /// The latest sample, or the latched error of the worker.
    pub fn sample(&self, now_ns: u64) -> (r: Result<Sample, String>)
        ensures
            match r {
                Err(e) => self.status.error == Some(e),
                Ok(s) => {
                    &&& self.status.error is None
                    &&& s.value == self.value
                    &&& s.reported_sequence == if self.sample_sequence < MAX_EXACT_INTEGER {
                        self.sample_sequence
                    } else {
                        MAX_EXACT_INTEGER
                    }
                    &&& s.age_ns == if now_ns >= self.sampled_at_ns {
                        now_ns - self.sampled_at_ns
                    } else {
                        0
                    }
                },
            },
    {
        if let Some(e) = self.status.error() {
            return Err(e);
        }
        let reported_sequence: u64 = if self.sample_sequence < MAX_EXACT_INTEGER {
            self.sample_sequence
        } else {
            MAX_EXACT_INTEGER
        };
        let age_ns: u64 = if now_ns >= self.sampled_at_ns {
            now_ns - self.sampled_at_ns
        } else {
            0
        };
        Ok(Sample { value: self.value, reported_sequence, age_ns })
    }
}

/// Encodes a response: metrics, value, sequence number and age.
pub fn write_response(metrics: &[u8], value: Real, sample_sequence: Real, sample_age_s: Real) -> (v:
    Vec<u8>)
    ensures
        v@ == packets::response_bytes(metrics@, seq![value, sample_sequence, sample_age_s]),
{
    let values = vec![value, sample_sequence, sample_age_s];
    assert(values@ =~= seq![value, sample_sequence, sample_age_s]);
    encode_response(metrics, values.as_slice())
}

/// The packet ID of a request. The instrument has no other inputs.
pub fn process_request(packet: &[u8]) -> (id: u64)
    requires
        packet.len() >= INPUT_SIZE,
    ensures
        id == bytes::le_value(packet@.subrange(0, 8)),
{
    request_id(packet)
}

/// The name of the thread channel of an instrument.
pub fn channel_name(serial_number: u64) -> (s: String)
    ensures
        s@ == "instrument-dmm6500-"@ + text::hex_text(serial_number as nat, 16),
{
    let mut s = "instrument-dmm6500-".to_owned();
    push_hex(&mut s, serial_number, 16);
    s
}

/// Live connection settings and the pure peripheral that goes with them.
#[derive(Debug)]
pub struct KeithleyDmm6500Driver {
    pub config: Config,
    pub channel_name: String,
}

impl KeithleyDmm6500Driver {
    /// Constructs a driver with validated settings without connecting it.
    pub fn new(config: Config) -> (r: Result<Self, String>)
        ensures
            match r {
                Ok(d) => {
                    &&& config.fault() is None
                    &&& d.config == config
                    &&& d.channel_name@ == "instrument-dmm6500-"@ + text::hex_text(
                        config.connection.serial_number as nat,
                        16,
                    )
                },
                Err(e) => config.fault() == Some(e@),
            },
    {
        config.validate()?;
        let channel_name = channel_name(config.connection.serial_number);
        Ok(KeithleyDmm6500Driver { config, channel_name })
    }

    /// The pure peripheral paired with this driver.
    pub fn peripheral(&self) -> (r: KeithleyDmm6500)
        ensures
            r == (KeithleyDmm6500 {
                serial_number: self.config.connection.serial_number,
                function: self.config.function.category(),
            }),
    {
        KeithleyDmm6500::with_function(self.config.connection.serial_number, self.config.function)
    }

    /// The internal thread-channel name expected by the driver.
    pub fn channel_name(&self) -> (r: &str)
        ensures
            r@ == self.channel_name@,
    {
        self.channel_name.as_str()
    }
}

/// The commands that configure acquisition. The numbers are given as they stand
/// in commands.
pub open spec fn setup_texts(function: Function, autozero: bool, range: Seq<char>, nplc: Seq<char>) -> Seq<
    Seq<char>,
> {
    let common = seq![":FORMat:DATA ASCii"@, ":SENSe:COUNt 1"@];
    match function {
        Function::DcVoltage { range_v } => common + seq![
            ":SENSe:FUNCtion \"VOLTage\""@,
            if range_v is Some {
                ":SENSe:VOLTage:RANGe "@ + range
            } else {
                ":SENSe:VOLTage:RANGe:AUTO ON"@
            },
            ":SENSe:VOLTage:NPLCycles "@ + nplc,
            if autozero {
                ":SENSe:VOLTage:AZERo ON"@
            } else {
                ":SENSe:VOLTage:AZERo OFF"@
            },
        ],
        Function::FourWireResistance { range_ohm, offset_compensation } => common + seq![
            ":SENS:FUNC \"FRES\""@,
            if range_ohm is Some {
                ":SENS:FRES:RANG "@ + range
            } else {
                ":SENS:FRES:RANG:AUTO ON"@
            },
            if offset_compensation {
                ":SENS:FRES:OCOM ON"@
            } else {
                ":SENS:FRES:OCOM OFF"@
            },
            if autozero {
                ":SENS:FRES:AZER ON"@
            } else {
                ":SENS:FRES:AZER OFF"@
            },
            ":SENS:FRES:NPLC "@ + nplc,
        ],
    }
}

fn with_number(command: &str, number: &str) -> (s: String)
    ensures
        s@ == command@ + number@,
{
    let mut s = command.to_owned();
    s.push_str(number);
    s
}

/// The commands that configure single-sample ASCII acquisition, in order.
/// `range` and `nplc` are the fixed range and the aperture as they stand in
/// commands.
pub fn setup_dmm(function: Function, autozero: bool, range: &str, nplc: &str) -> (v: Vec<String>)
    ensures
        text::texts(v@) == setup_texts(function, autozero, range@, nplc@),
{
    let mut v: Vec<String> = Vec::new();
    v.push(":FORMat:DATA ASCii".to_owned());
    v.push(":SENSe:COUNt 1".to_owned());
    match function {
        Function::DcVoltage { range_v } => {
            v.push(":SENSe:FUNCtion \"VOLTage\"".to_owned());
            v.push(
                if range_v.is_some() {
                    with_number(":SENSe:VOLTage:RANGe ", range)
                } else {
                    ":SENSe:VOLTage:RANGe:AUTO ON".to_owned()
                },
            );
            v.push(with_number(":SENSe:VOLTage:NPLCycles ", nplc));
            v.push(
                if autozero {
                    ":SENSe:VOLTage:AZERo ON".to_owned()
                } else {
                    ":SENSe:VOLTage:AZERo OFF".to_owned()
                },
            );
        },
        Function::FourWireResistance { range_ohm, offset_compensation } => {
            v.push(":SENS:FUNC \"FRES\"".to_owned());
            v.push(
                if range_ohm.is_some() {
                    with_number(":SENS:FRES:RANG ", range)
                } else {
                    ":SENS:FRES:RANG:AUTO ON".to_owned()
                },
            );
            v.push(
                if offset_compensation {
                    ":SENS:FRES:OCOM ON".to_owned()
                } else {
                    ":SENS:FRES:OCOM OFF".to_owned()
                },
            );
            v.push(
                if autozero {
                    ":SENS:FRES:AZER ON".to_owned()
                } else {
                    ":SENS:FRES:AZER OFF".to_owned()
                },
            );
            v.push(with_number(":SENS:FRES:NPLC ", nplc));
        },
    }
    assert(text::texts(v@) =~= setup_texts(function, autozero, range@, nplc@));
    v
}

/// Why a response is no measurement. `number` is the response read as a number.
pub open spec fn measurement_fault(response: Seq<char>, number: Result<Real, String>) -> Option<
    Seq<char>,
> {
    match number {
        Err(e) => Some("invalid measurement response `"@ + response + "`: "@ + e@),
        Ok(x) => if x.nan() {
            Some("NaN measurement response `"@ + response + "`"@)
        } else if x.magnitude() >= OVERFLOW_READING_BITS {
            Some("overrange measurement response `"@ + response + "`"@)
        } else {
            None
        },
    }
}

/// Accepts a measurement. `number` is the trimmed response read as a number, or
/// why it is none.
pub fn parse_measurement(response: &str, number: Result<Real, String>) -> (r: Result<Real, String>)
    ensures
        match r {
            Ok(x) => measurement_fault(response@, number) is None && number == Ok::<Real, String>(
                x,
            ),
            Err(e) => measurement_fault(response@, number) == Some(e@),
        },
{
    match number {
        Err(error) => {
            let mut e = "invalid measurement response `".to_owned();
            e.push_str(response);
            e.push_str("`: ");
            e.push_str(error.as_str());
            Err(e)
        },
        Ok(x) => {
            if x.is_nan() {
                let mut e = "NaN measurement response `".to_owned();
                e.push_str(response);
                e.push_str("`");
                return Err(e);
            }
            if x.to_bits() % crate::binary64::SIGN >= OVERFLOW_READING_BITS {
                let mut e = "overrange measurement response `".to_owned();
                e.push_str(response);
                e.push_str("`");
                return Err(e);
            }
            Ok(x)
        },
    }
}

/// The phase in which the worker failed before it was ready.
#[derive(Debug, Clone, Copy, PartialEq, Eq, Structural)]
pub enum StartupPhase {
    Connection,
    Setup,
    InitialRead,
}

/// The startup error of a failed phase.
pub fn startup_error(phase: StartupPhase, error: &str) -> (s: String)
    ensures
        s@ == match phase {
            StartupPhase::Connection => "DMM6500 connection failed: "@,
            StartupPhase::Setup => "DMM6500 setup failed: "@,
            StartupPhase::InitialRead => "DMM6500 initial read failed: "@,
        } + error@,
{
    let mut s = match phase {
        StartupPhase::Connection => "DMM6500 connection failed: ".to_owned(),
        StartupPhase::Setup => "DMM6500 setup failed: ".to_owned(),
        StartupPhase::InitialRead => "DMM6500 initial read failed: ".to_owned(),
    };
    s.push_str(error);
    s
}

/// The error of the worker as it is latched.
pub fn worker_error(error: &str) -> (s: String)
    ensures
        s@ == "DMM6500: "@ + error@,
{
    let mut s = "DMM6500: ".to_owned();
    s.push_str(error);
    s
}

/// A measurement that is accepted is an ordinary number below the overflow
/// reading on either side.
pub proof fn law_accepted_measurement_is_in_range(response: Seq<char>, x: Real)
    requires
        measurement_fault(response, Ok::<Real, String>(x)) is None,
    ensures
        x.finite(),
        -OVERFLOW_READING_BITS < x.key() < OVERFLOW_READING_BITS,
{
}

/// Automatic zero takes three apertures for each one of a reading without it, and
/// offset compensation of a resistance takes two. Voltages take no other.
pub proof fn law_corrections_multiply_the_apertures(a: Config, b: Config)
    requires
        a.function == b.function,
        a.autozero,
        !b.autozero,
    ensures
        a.apertures() == 3 * b.apertures(),
        b.function is DcVoltage ==> b.apertures() == 1,
        b.function is FourWireResistance ==> b.apertures() == if b.function->offset_compensation {
            2int
        } else {
            1
        },
{
}

/// The read time is no shorter than the one that is configured, and no shorter than
/// the apertures with a quarter of a second on top. It is one of the two.
pub proof fn law_readings_have_the_time_they_need(config: Config, aperture_ns: int)
    requires
        0 <= aperture_ns,
        aperture_ns + 250_000_000 <= span::MAX_SPAN_NS,
    ensures
        config.read_ns(aperture_ns) >= config.connection.read_timeout.ns,
        config.read_ns(aperture_ns) >= aperture_ns + 250_000_000,
        config.read_ns(aperture_ns) == config.connection.read_timeout.ns || config.read_ns(
            aperture_ns,
        ) == aperture_ns + 250_000_000,
{
}

/// A response is a measurement exactly where it is a number whose magnitude is below
/// 9.9e37.
pub proof fn law_ordinary_numbers_are_accepted(response: Seq<char>, number: Result<Real, String>)
    ensures
        measurement_fault(response, number) is None <==> (number matches Ok(x) && !x.nan() && x.lt(
            Real { bits: OVERFLOW_READING_BITS },
        ) && x.negated().lt(Real { bits: OVERFLOW_READING_BITS })),
        ({
            let significand: int = 0x10_0000_0000_0000 + OVERFLOW_READING_BITS as int
                % 0x10_0000_0000_0000;
            let exponent: int = OVERFLOW_READING_BITS as int / 0x10_0000_0000_0000;
            let place: int = 0x400_0000_0000_0000_0000;
            &&& exponent == 1075 + 74
            &&& -place <= significand * place - 99_000_000_000_000_000_000_000_000_000_000_000_000
                <= place
        }),
{
}

/// The commands of a setup set what is configured: the function, a fixed range
/// exactly where there is one, the aperture, automatic zero, and for resistances the
/// offset compensation. Each is set once, and numbers are in ASCII, one at a time.
pub proof fn law_setup_commands_follow_the_settings(
    function: Function,
    autozero: bool,
    range: Seq<char>,
    nplc: Seq<char>,
)
    ensures
        ({
            let v = setup_texts(function, autozero, range, nplc);
            let on = if autozero {
                "ON"@
            } else {
                "OFF"@
            };
            &&& v[0] == ":FORMat:DATA ASCii"@
            &&& v[1] == ":SENSe:COUNt 1"@
            &&& function is DcVoltage ==> {
                &&& v.len() == 6
                &&& v[2] == ":SENSe:FUNCtion \"VOLTage\""@
                &&& v.contains(":SENSe:VOLTage:NPLCycles "@ + nplc)
                &&& v.contains(":SENSe:VOLTage:AZERo "@ + on)
                &&& function.fixed_range() is Some ==> v.contains(":SENSe:VOLTage:RANGe "@ + range)
                &&& function.fixed_range() is None ==> v.contains(":SENSe:VOLTage:RANGe:AUTO ON"@)
            }
            &&& function is FourWireResistance ==> {
                &&& v.len() == 7
                &&& v[2] == ":SENS:FUNC \"FRES\""@
                &&& v.contains(":SENS:FRES:NPLC "@ + nplc)
                &&& v.contains(":SENS:FRES:AZER "@ + on)
                &&& v.contains(":SENS:FRES:OCOM "@ + if function->offset_compensation {
                    "ON"@
                } else {
                    "OFF"@
                })
                &&& function.fixed_range() is Some ==> v.contains(":SENS:FRES:RANG "@ + range)
                &&& function.fixed_range() is None ==> v.contains(":SENS:FRES:RANG:AUTO ON"@)
            }
        }),
{
    reveal_strlit("ON");
    reveal_strlit("OFF");
    reveal_strlit(":SENSe:VOLTage:AZERo ");
    reveal_strlit(":SENSe:VOLTage:AZERo ON");
    reveal_strlit(":SENSe:VOLTage:AZERo OFF");
    reveal_strlit(":SENS:FRES:AZER ");
    reveal_strlit(":SENS:FRES:AZER ON");
    reveal_strlit(":SENS:FRES:AZER OFF");
    reveal_strlit(":SENS:FRES:OCOM ");
    reveal_strlit(":SENS:FRES:OCOM ON");
    reveal_strlit(":SENS:FRES:OCOM OFF");
    assert(":SENSe:VOLTage:AZERo "@ + "ON"@ =~= ":SENSe:VOLTage:AZERo ON"@);
    assert(":SENSe:VOLTage:AZERo "@ + "OFF"@ =~= ":SENSe:VOLTage:AZERo OFF"@);
    assert(":SENS:FRES:AZER "@ + "ON"@ =~= ":SENS:FRES:AZER ON"@);
    assert(":SENS:FRES:AZER "@ + "OFF"@ =~= ":SENS:FRES:AZER OFF"@);
    assert(":SENS:FRES:OCOM "@ + "ON"@ =~= ":SENS:FRES:OCOM ON"@);
    assert(":SENS:FRES:OCOM "@ + "OFF"@ =~= ":SENS:FRES:OCOM OFF"@);
    let v = setup_texts(function, autozero, range, nplc);
    assert(v[3] == v[3] && v[4] == v[4] && v[5] == v[5]);
    if function is FourWireResistance {
        assert(v.contains(v[6]) && v.contains(v[5]) && v.contains(v[4]) && v.contains(v[3]));
    } else {
        assert(v.contains(v[5]) && v.contains(v[4]) && v.contains(v[3]));
    }
}

/// The configuration is accepted exactly where the connection is, the aperture is
/// finite and positive, and so is the range where one is given.
pub proof fn law_complete_configurations_are_accepted(config: Config)
    ensures
        config.fault() is None <==> {
            &&& config.connection.fault() is None
            &&& config.nplc.finite_positive()
            &&& match config.function {
                Function::DcVoltage { range_v } => range_v matches Some(x) ==> x.finite_positive(),
                Function::FourWireResistance { range_ohm, .. } => range_ohm matches Some(x)
                    ==> x.finite_positive(),
            }
        },
{
}

} // verus!
