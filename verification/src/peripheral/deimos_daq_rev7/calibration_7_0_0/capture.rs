//! Captured calibration samples: their records on disk and how they are read back.

use vstd::prelude::*;
use crate::binary64::Real;
use crate::text::{push_nat, same_text, strip_suffix};
use crate::text;
use super::channels;
use super::channels::{channel_for_signal_name, CalibrationChannel, CalibrationKind};

verus! {

/// Model name in every record.
pub const MODEL_NAME: &'static str = "deimos_daq_rev7";

/// End of the name of every calibration data file.
pub const CALIBRATION_DATA_SUFFIX: &'static str = "_calibration_data.csv";

/// One row of a calibration data file.
#[derive(Debug)]
pub struct CalibrationRecord {
    pub model: String,
    pub serial_number: u64,
    pub channel: String,
    pub signal_name: String,
    pub timestamp_ns: i64,
    pub time_s: Real,
    pub measured_a: Real,
    pub reference_a: Option<Real>,
    pub calibrator_cold_junction_temperature_k: Option<Real>,
    pub board_cold_junction_temperature_k: Option<Real>,
    pub board_cold_junction_offset_k: Option<Real>,
    pub thermocouple_voltage_v: Option<Real>,
}

/// The samples of one run on one channel.
#[derive(Debug)]
pub struct ChannelCapture {
    pub serial_number: u64,
    pub channel: CalibrationChannel,
    pub op_name: String,
    pub op_dir: String,
    pub timestamps_ns: Vec<i64>,
    pub times_s: Vec<Real>,
    pub measured_a: Vec<Real>,
    pub reference_a: Vec<Option<Real>>,
    pub calibrator_cold_junction_temperature_k: Option<Real>,
    pub board_cold_junction_temperature_k: Vec<Real>,
    pub board_cold_junction_offset_k: Option<Real>,
    pub thermocouple_voltage_v: Vec<Real>,
}

/// The columns of a capture and the cold-junction values that go with them.
#[verifier::ext_equal]
pub ghost struct Columns {
    pub timestamps_ns: Seq<i64>,
    pub times_s: Seq<Real>,
    pub measured_a: Seq<Real>,
    pub reference_a: Seq<Option<Real>>,
    pub board_temperature_k: Seq<Real>,
    pub voltage_v: Seq<Real>,
    pub calibrator_temperature_k: Option<Real>,
    pub offset_k: Option<Real>,
}

/// Whether the numbers are finite and each is greater than the one before.
pub open spec fn increasing(times: Seq<Real>) -> bool {
    &&& forall|i: int| 0 <= i < times.len() ==> (#[trigger] times[i]).finite()
    &&& forall|i: int, j: int|
        0 <= i < j < times.len() ==> (#[trigger] times[i]).lt(#[trigger] times[j])
}

impl Columns {
    /// No samples yet.
    pub open spec fn none() -> Columns {
        Columns {
            timestamps_ns: Seq::empty(),
            times_s: Seq::empty(),
            measured_a: Seq::empty(),
            reference_a: Seq::empty(),
            board_temperature_k: Seq::empty(),
            voltage_v: Seq::empty(),
            calibrator_temperature_k: None,
            offset_k: None,
        }
    }

    /// All columns have one entry per sample, the thermocouple columns on
    /// thermocouple channels only, the times increase, and all samples are finite.
    pub open spec fn wf(self, kind: CalibrationKind) -> bool {
        let n = self.times_s.len();
        &&& self.timestamps_ns.len() == n
        &&& self.measured_a.len() == n
        &&& self.reference_a.len() == n
        &&& self.board_temperature_k.len() == if kind == CalibrationKind::Thermocouple {
            n
        } else {
            0
        }
        &&& self.voltage_v.len() == self.board_temperature_k.len()
        &&& increasing(self.times_s)
        &&& forall|i: int| 0 <= i < n ==> (#[trigger] self.measured_a[i]).finite()
        &&& forall|i: int|
            0 <= i < self.voltage_v.len() ==> (#[trigger] self.board_temperature_k[i]).finite()
        &&& forall|i: int|
            0 <= i < self.voltage_v.len() ==> (#[trigger] self.voltage_v[i]).finite()
    }

    /// Whether a sample at `time` comes after every sample so far.
    pub open spec fn in_time(self, time: Real) -> bool {
        time.finite() && (self.times_s.len() == 0 || !time.le(self.times_s.last()))
    }

    /// The columns with one more sample.
    pub open spec fn with_sample(
        self,
        kind: CalibrationKind,
        timestamp: i64,
        time: Real,
        measurement: Real,
        reference: Option<Real>,
        board: Real,
        voltage: Real,
    ) -> Columns {
        Columns {
            timestamps_ns: self.timestamps_ns.push(timestamp),
            times_s: self.times_s.push(time),
            measured_a: self.measured_a.push(measurement),
            reference_a: self.reference_a.push(reference),
            board_temperature_k: if kind == CalibrationKind::Thermocouple {
                self.board_temperature_k.push(board)
            } else {
                self.board_temperature_k
            },
            voltage_v: if kind == CalibrationKind::Thermocouple {
                self.voltage_v.push(voltage)
            } else {
                self.voltage_v
            },
            ..self
        }
    }
}

impl ChannelCapture {
    /// The columns of the capture.
    pub open spec fn columns(self) -> Columns {
        Columns {
            timestamps_ns: self.timestamps_ns@,
            times_s: self.times_s@,
            measured_a: self.measured_a@,
            reference_a: self.reference_a@,
            board_temperature_k: self.board_cold_junction_temperature_k@,
            voltage_v: self.thermocouple_voltage_v@,
            calibrator_temperature_k: self.calibrator_cold_junction_temperature_k,
            offset_k: self.board_cold_junction_offset_k,
        }
    }

    /// Well-formed columns.
    pub open spec fn wf(self) -> bool {
        self.columns().wf(self.channel.kind)
    }
}

/// The first of two optional values that is there.
pub open spec fn either(a: Option<Real>, b: Option<Real>) -> Option<Real> {
    if a is Some {
        a
    } else {
        b
    }
}

/// What the next record of a file asks for.
#[derive(Debug, Clone, Copy, PartialEq, Eq, Structural)]
pub enum RecordStep {
    /// The record is left out.
    Skip,
    /// The record's own measurement is to be stored.
    Measured(Real),
    /// The temperature for `voltage_v` against the cold junction at
    /// `board_temperature_k + offset_k` is to be stored.
    Corrected { voltage_v: Real, board_temperature_k: Real, offset_k: Real },
}

/// A record that waits for its measurement.
#[derive(Debug, Clone, Copy)]
struct Pending {
    timestamp_ns: i64,
    time_s: Real,
    reference_a: Option<Real>,
    board_temperature_k: Real,
    voltage_v: Real,
}

/// Reads the records of one calibration data file, one after the other.
pub struct CaptureReader {
    path: String,
    capture: ChannelCapture,
    pending: Option<Pending>,
}

/// Why a record does not belong to the file of its first record.
pub open spec fn foreign_record(
    path: Seq<char>,
    serial_number: u64,
    channel: CalibrationChannel,
    record: CalibrationRecord,
) -> Option<Seq<char>> {
    if record.model@ != MODEL_NAME@ {
        Some(path + " has model '"@ + record.model@ + "', expected '"@ + MODEL_NAME@ + "'"@)
    } else if record.serial_number != serial_number {
        Some(
            path + " contains mixed serial numbers: "@ + text::nat_text(serial_number as nat)
                + " and "@ + text::nat_text(record.serial_number as nat),
        )
    } else if record.signal_name@ != channel.signal_name@ {
        Some(
            path + " contains mixed signals: '"@ + channel.signal_name@ + "' and '"@
                + record.signal_name@ + "'"@,
        )
    } else {
        None
    }
}

/// The message for a thermocouple record without one of its values.
pub open spec fn missing_value(path: Seq<char>, name: Seq<char>, channel: CalibrationChannel) -> Seq<
    char,
> {
    path + " is missing "@ + name + " for thermocouple signal '"@ + channel.signal_name@ + "'"@
}

/// The error that a record gives, after columns `c`.
pub open spec fn record_error(
    path: Seq<char>,
    serial_number: u64,
    channel: CalibrationChannel,
    c: Columns,
    record: CalibrationRecord,
) -> Option<Seq<char>> {
    if foreign_record(path, serial_number, channel, record) is Some {
        foreign_record(path, serial_number, channel, record)
    } else if !c.in_time(record.time_s) || channel.kind != CalibrationKind::Thermocouple {
        None
    } else if either(record.board_cold_junction_offset_k, c.offset_k) is None {
        Some(missing_value(path, "board_cold_junction_offset_k"@, channel))
    } else if record.board_cold_junction_temperature_k is None {
        Some(missing_value(path, "board_cold_junction_temperature_k"@, channel))
    } else if record.thermocouple_voltage_v is None {
        Some(missing_value(path, "thermocouple_voltage_v"@, channel))
    } else {
        None
    }
}

/// What a record without an error asks for, after columns `c`.
pub open spec fn record_step(kind: CalibrationKind, c: Columns, record: CalibrationRecord) -> RecordStep {
    if !c.in_time(record.time_s) {
        RecordStep::Skip
    } else if kind != CalibrationKind::Thermocouple {
        RecordStep::Measured(record.measured_a)
    } else if !(record.board_cold_junction_temperature_k->0).finite()
        || !(record.thermocouple_voltage_v->0).finite() {
        RecordStep::Skip
    } else {
        RecordStep::Corrected {
            voltage_v: record.thermocouple_voltage_v->0,
            board_temperature_k: record.board_cold_junction_temperature_k->0,
            offset_k: either(record.board_cold_junction_offset_k, c.offset_k)->0,
        }
    }
}

/// The columns once a record without an error was examined: a thermocouple
/// record in time sets the offset, and the calibrator temperature if it is the
/// first to hold one.
pub open spec fn examined(kind: CalibrationKind, c: Columns, record: CalibrationRecord) -> Columns {
    if c.in_time(record.time_s) && kind == CalibrationKind::Thermocouple {
        Columns {
            calibrator_temperature_k: either(
                c.calibrator_temperature_k,
                record.calibrator_cold_junction_temperature_k,
            ),
            offset_k: either(record.board_cold_junction_offset_k, c.offset_k),
            ..c
        }
    } else {
        c
    }
}

/// The columns once the measurement of an examined record came in. A
/// measurement that is not finite is left out.
pub open spec fn stored(
    kind: CalibrationKind,
    c: Columns,
    record: CalibrationRecord,
    measurement: Real,
) -> Columns {
    if measurement.finite() {
        c.with_sample(
            kind,
            record.timestamp_ns,
            record.time_s,
            measurement,
            record.reference_a,
            record.board_cold_junction_temperature_k->0,
            record.thermocouple_voltage_v->0,
        )
    } else {
        c
    }
}

/// The columns once a record was examined and, where it asks for one, its
/// measurement was stored.
pub open spec fn after_record(
    kind: CalibrationKind,
    c: Columns,
    record: CalibrationRecord,
    measurement: Real,
) -> Columns {
    if record_step(kind, c, record) is Skip {
        examined(kind, c, record)
    } else {
        stored(kind, examined(kind, c, record), record, measurement)
    }
}

/// The name of the run that a data file belongs to.
pub open spec fn run_name(file_name: Option<Seq<char>>) -> Seq<char> {
    match file_name {
        Some(name) => if text::ends_with(name, CALIBRATION_DATA_SUFFIX@) {
            name.take(name.len() - CALIBRATION_DATA_SUFFIX@.len())
        } else {
            "rev7_calibration"@
        },
        None => "rev7_calibration"@,
    }
}

/// The view of an optional string slice.
pub open spec fn option_view(s: Option<&str>) -> Option<Seq<char>> {
    match s {
        Some(s) => Some(s@),
        None => None,
    }
}

/// The error of opening a file whose records are `records`.
pub open spec fn open_error(
    path: Seq<char>,
    parent: Option<&str>,
    records: Seq<CalibrationRecord>,
) -> Option<Seq<char>> {
    if records.len() == 0 {
        Some("No calibration records found in "@ + path)
    } else if channels::channel_named(
        records[0].signal_name@,
        channels::channel_table().len(),
    ) is None {
        Some("Unknown calibration signal '"@ + records[0].signal_name@ + "'"@)
    } else if parent is None {
        Some("Unable to determine parent folder for "@ + path)
    } else {
        None
    }
}

/// The message where fewer than two samples of a file are usable.
pub open spec fn too_few_samples(path: Seq<char>, n: nat) -> Seq<char> {
    "Need at least two finite monotonic samples in "@ + path + ", got "@ + text::nat_text(n)
}

impl CaptureReader {
    /// The path of the file, as it is shown.
    pub closed spec fn path(self) -> Seq<char> {
        self.path@
    }

    /// The serial number of the first record.
    pub closed spec fn serial_number(self) -> u64 {
        self.capture.serial_number
    }

    /// The channel of the first record.
    pub closed spec fn channel(self) -> CalibrationChannel {
        self.capture.channel
    }

    /// The name of the run.
    pub closed spec fn op_name(self) -> Seq<char> {
        self.capture.op_name@
    }

    /// The folder of the file.
    pub closed spec fn op_dir(self) -> Seq<char> {
        self.capture.op_dir@
    }

    /// The columns so far.
    pub closed spec fn columns(self) -> Columns {
        self.capture.columns()
    }

    /// Whether the last examined record waits for its measurement.
    pub closed spec fn waiting(self) -> bool {
        self.pending is Some
    }

    /// Whether the record that waits for its measurement is `record`.
    pub closed spec fn waits_for(self, record: CalibrationRecord) -> bool {
        match self.pending {
            Some(p) => {
                &&& p.timestamp_ns == record.timestamp_ns
                &&& p.time_s == record.time_s
                &&& p.reference_a == record.reference_a
                &&& self.capture.channel.kind == CalibrationKind::Thermocouple
                    ==> p.board_temperature_k == record.board_cold_junction_temperature_k->0
                    && p.voltage_v == record.thermocouple_voltage_v->0
            },
            None => false,
        }
    }

    /// Well-formed columns, and a waiting record comes after them.
    pub closed spec fn wf(self) -> bool {
        &&& self.capture.wf()
        &&& self.pending matches Some(p) ==> self.columns().in_time(p.time_s)
            && p.board_temperature_k.finite() && p.voltage_v.finite()
    }

    /// Starts on a file with the given records.
    pub fn open(
        path: &str,
        parent: Option<&str>,
        file_name: Option<&str>,
        records: &[CalibrationRecord],
    ) -> (r: Result<CaptureReader, String>)
        ensures
            match r {
                Err(e) => open_error(path@, parent, records@) == Some(e@),
                Ok(reader) => {
                    &&& open_error(path@, parent, records@) is None
                    &&& reader.wf()
                    &&& !reader.waiting()
                    &&& reader.path() == path@
                    &&& reader.serial_number() == records@[0].serial_number
                    &&& channels::channel_named(
                        records@[0].signal_name@,
                        channels::channel_table().len(),
                    ) == Some(reader.channel())
                    &&& reader.op_dir() == parent->0@
                    &&& reader.op_name() == run_name(option_view(file_name))
                    &&& reader.columns() == Columns::none()
                },
            },
    {
        if records.len() == 0 {
            let mut e = "No calibration records found in ".to_owned();
            e.push_str(path);
            return Err(e);
        }
        let first = &records[0];
        let channel = match channel_for_signal_name(first.signal_name.as_str()) {
            Some(channel) => channel,
            None => {
                let mut e = "Unknown calibration signal '".to_owned();
                e.push_str(first.signal_name.as_str());
                e.push_str("'");
                return Err(e);
            },
        };
        let op_dir = match parent {
            Some(parent) => parent.to_owned(),
            None => {
                let mut e = "Unable to determine parent folder for ".to_owned();
                e.push_str(path);
                return Err(e);
            },
        };
        let op_name = match file_name {
            Some(name) => match strip_suffix(name, CALIBRATION_DATA_SUFFIX) {
                Some(front) => front,
                None => "rev7_calibration".to_owned(),
            },
            None => "rev7_calibration".to_owned(),
        };
        let capture = ChannelCapture {
            serial_number: first.serial_number,
            channel,
            op_name,
            op_dir,
            timestamps_ns: Vec::new(),
            times_s: Vec::new(),
            measured_a: Vec::new(),
            reference_a: Vec::new(),
            calibrator_cold_junction_temperature_k: None,
            board_cold_junction_temperature_k: Vec::new(),
            board_cold_junction_offset_k: None,
            thermocouple_voltage_v: Vec::new(),
        };
        Ok(CaptureReader { path: path.to_owned(), capture, pending: None })
    }

    fn foreign(&self, record: &CalibrationRecord) -> (r: Option<String>)
        ensures
            match r {
                Some(e) => foreign_record(
                    self.path(),
                    self.serial_number(),
                    self.channel(),
                    *record,
                ) == Some(e@),
                None => foreign_record(
                    self.path(),
                    self.serial_number(),
                    self.channel(),
                    *record,
                ) is None,
            },
    {
        if !same_text(record.model.as_str(), MODEL_NAME) {
            let mut e = self.path.clone();
            e.push_str(" has model '");
            e.push_str(record.model.as_str());
            e.push_str("', expected '");
            e.push_str(MODEL_NAME);
            e.push_str("'");
            return Some(e);
        }
        if record.serial_number != self.capture.serial_number {
            let mut e = self.path.clone();
            e.push_str(" contains mixed serial numbers: ");
            push_nat(&mut e, self.capture.serial_number as u128);
            e.push_str(" and ");
            push_nat(&mut e, record.serial_number as u128);
            return Some(e);
        }
        if !same_text(record.signal_name.as_str(), self.capture.channel.signal_name) {
            let mut e = self.path.clone();
            e.push_str(" contains mixed signals: '");
            e.push_str(self.capture.channel.signal_name);
            e.push_str("' and '");
            e.push_str(record.signal_name.as_str());
            e.push_str("'");
            return Some(e);
        }
        None
    }

    fn missing(&self, name: &str) -> (e: String)
        ensures
            e@ == missing_value(self.path(), name@, self.channel()),
    {
        let mut e = self.path.clone();
        e.push_str(" is missing ");
        e.push_str(name);
        e.push_str(" for thermocouple signal '");
        e.push_str(self.capture.channel.signal_name);
        e.push_str("'");
        e
    }

    fn in_time(&self, time: Real) -> (r: bool)
        ensures
            r == self.columns().in_time(time),
    {
        if !time.is_finite() {
            return false;
        }
        let n = self.capture.times_s.len();
        n == 0 || !time.at_most(self.capture.times_s[n - 1])
    }

    /// Examines the next record and says what it asks for. Where that is a
    /// measurement, it is handed in with `store` before the next record.
    pub fn examine(&mut self, record: &CalibrationRecord) -> (r: Result<RecordStep, String>)
        requires
            old(self).wf(),
        ensures
            final(self).wf(),
            final(self).path() == old(self).path(),
            final(self).serial_number() == old(self).serial_number(),
            final(self).channel() == old(self).channel(),
            final(self).op_name() == old(self).op_name(),
            final(self).op_dir() == old(self).op_dir(),
            match r {
                Err(e) => record_error(
                    old(self).path(),
                    old(self).serial_number(),
                    old(self).channel(),
                    old(self).columns(),
                    *record,
                ) == Some(e@),
                Ok(step) => {
                    &&& record_error(
                        old(self).path(),
                        old(self).serial_number(),
                        old(self).channel(),
                        old(self).columns(),
                        *record,
                    ) is None
                    &&& step == record_step(old(self).channel().kind, old(self).columns(), *record)
                    &&& final(self).columns() == examined(
                        old(self).channel().kind,
                        old(self).columns(),
                        *record,
                    )
                    &&& final(self).waiting() == (step !is Skip)
                    &&& step !is Skip ==> final(self).waits_for(*record)
                },
            },
    {
        self.pending = None;
        if let Some(e) = self.foreign(record) {
            return Err(e);
        }
        if !self.in_time(record.time_s) {
            return Ok(RecordStep::Skip);
        }
        if self.capture.channel.kind != CalibrationKind::Thermocouple {
            self.pending = Some(
                Pending {
                    timestamp_ns: record.timestamp_ns,
                    time_s: record.time_s,
                    reference_a: record.reference_a,
                    board_temperature_k: Real::zero(),
                    voltage_v: Real::zero(),
                },
            );
            return Ok(RecordStep::Measured(record.measured_a));
        }
        let offset_k = match record.board_cold_junction_offset_k {
            Some(offset_k) => offset_k,
            None => match self.capture.board_cold_junction_offset_k {
                Some(offset_k) => offset_k,
                None => {
                    return Err(self.missing("board_cold_junction_offset_k"));
                },
            },
        };
        let board_temperature_k = match record.board_cold_junction_temperature_k {
            Some(board_temperature_k) => board_temperature_k,
            None => {
                return Err(self.missing("board_cold_junction_temperature_k"));
            },
        };
        let voltage_v = match record.thermocouple_voltage_v {
            Some(voltage_v) => voltage_v,
            None => {
                return Err(self.missing("thermocouple_voltage_v"));
            },
        };
        if self.capture.calibrator_cold_junction_temperature_k.is_none() {
            self.capture.calibrator_cold_junction_temperature_k =
            record.calibrator_cold_junction_temperature_k;
        }
        self.capture.board_cold_junction_offset_k = Some(offset_k);
        if !board_temperature_k.is_finite() || !voltage_v.is_finite() {
            return Ok(RecordStep::Skip);
        }
        self.pending = Some(
            Pending {
                timestamp_ns: record.timestamp_ns,
                time_s: record.time_s,
                reference_a: record.reference_a,
                board_temperature_k,
                voltage_v,
            },
        );
        Ok(RecordStep::Corrected { voltage_v, board_temperature_k, offset_k })
    }

    /// Takes the measurement of the record that waits for one. One that is not
    /// finite leaves the record out.
    pub fn store(&mut self, measurement: Real)
        requires
            old(self).wf(),
        ensures
            final(self).wf(),
            !final(self).waiting(),
            final(self).path() == old(self).path(),
            final(self).serial_number() == old(self).serial_number(),
            final(self).channel() == old(self).channel(),
            final(self).op_name() == old(self).op_name(),
            final(self).op_dir() == old(self).op_dir(),
            !old(self).waiting() ==> final(self).columns() == old(self).columns(),
            forall|record: CalibrationRecord| #[trigger]
                old(self).waits_for(record) ==> final(self).columns() == stored(
                    old(self).channel().kind,
                    old(self).columns(),
                    record,
                    measurement,
                ),
    {
        if let Some(p) = self.pending {
            if measurement.is_finite() {
                self.capture.timestamps_ns.push(p.timestamp_ns);
                self.capture.times_s.push(p.time_s);
                self.capture.measured_a.push(measurement);
                self.capture.reference_a.push(p.reference_a);
                if self.capture.channel.kind == CalibrationKind::Thermocouple {
                    self.capture.board_cold_junction_temperature_k.push(p.board_temperature_k);
                    self.capture.thermocouple_voltage_v.push(p.voltage_v);
                }
            }
        }
        self.pending = None;
    }

    /// The capture once all records were read. Fewer than two samples are an error.
    pub fn finish(self) -> (r: Result<ChannelCapture, String>)
        requires
            self.wf(),
        ensures
            match r {
                Err(e) => self.columns().times_s.len() < 2 && e@ == too_few_samples(
                    self.path(),
                    self.columns().times_s.len(),
                ),
                Ok(capture) => {
                    &&& self.columns().times_s.len() >= 2
                    &&& capture.wf()
                    &&& capture.columns() == self.columns()
                    &&& capture.serial_number == self.serial_number()
                    &&& capture.channel == self.channel()
                    &&& capture.op_name@ == self.op_name()
                    &&& capture.op_dir@ == self.op_dir()
                },
            },
    {
        let n = self.capture.times_s.len();
        if n < 2 {
            let mut e = "Need at least two finite monotonic samples in ".to_owned();
            e.push_str(self.path.as_str());
            e.push_str(", got ");
            push_nat(&mut e, n as u128);
            return Err(e);
        }
        Ok(self.capture)
    }
}

/// The entry of a column, where it has one.
pub open spec fn entry(column: Seq<Real>, i: int) -> Option<Real> {
    if 0 <= i < column.len() {
        Some(column[i])
    } else {
        None
    }
}

/// Whether `record` is the row of sample `i`.
pub open spec fn is_row(record: CalibrationRecord, capture: ChannelCapture, i: int) -> bool {
    let c = capture.columns();
    &&& record.model@ == MODEL_NAME@
    &&& record.serial_number == capture.serial_number
    &&& record.channel@ == capture.channel.slug@
    &&& record.signal_name@ == capture.channel.signal_name@
    &&& record.timestamp_ns == c.timestamps_ns[i]
    &&& record.time_s == c.times_s[i]
    &&& record.measured_a == c.measured_a[i]
    &&& record.reference_a == if i < c.reference_a.len() {
        c.reference_a[i]
    } else {
        None
    }
    &&& record.calibrator_cold_junction_temperature_k == c.calibrator_temperature_k
    &&& record.board_cold_junction_temperature_k == entry(c.board_temperature_k, i)
    &&& record.board_cold_junction_offset_k == c.offset_k
    &&& record.thermocouple_voltage_v == entry(c.voltage_v, i)
}

fn entry_of(column: &Vec<Real>, i: usize) -> (r: Option<Real>)
    ensures
        r == entry(column@, i as int),
{
    if i < column.len() {
        Some(column[i])
    } else {
        None
    }
}

impl ChannelCapture {
    /// Number of samples that have a timestamp, a time and a measurement.
    pub open spec fn rows(self) -> nat {
        let n = self.timestamps_ns@.len();
        let n = if self.times_s@.len() < n {
            self.times_s@.len()
        } else {
            n
        };
        if self.measured_a@.len() < n {
            self.measured_a@.len()
        } else {
            n
        }
    }

    /// The rows of the calibration data file of the capture.
    pub fn calibration_records(&self) -> (v: Vec<CalibrationRecord>)
        ensures
            v@.len() == self.rows(),
            forall|i: int| 0 <= i < v@.len() ==> is_row(#[trigger] v@[i], *self, i),
    {
        let mut v: Vec<CalibrationRecord> = Vec::new();
        let mut i: usize = 0;
        while i < self.timestamps_ns.len() && i < self.times_s.len() && i < self.measured_a.len()
            invariant
                i <= self.rows(),
                v@.len() == i,
                forall|k: int| 0 <= k < v@.len() ==> is_row(#[trigger] v@[k], *self, k),
            decreases self.rows() - i,
        {
            let reference_a = if i < self.reference_a.len() {
                self.reference_a[i]
            } else {
                None
            };
            let record = CalibrationRecord {
                model: MODEL_NAME.to_owned(),
                serial_number: self.serial_number,
                channel: self.channel.slug.to_owned(),
                signal_name: self.channel.signal_name.to_owned(),
                timestamp_ns: self.timestamps_ns[i],
                time_s: self.times_s[i],
                measured_a: self.measured_a[i],
                reference_a,
                calibrator_cold_junction_temperature_k: self.calibrator_cold_junction_temperature_k,
                board_cold_junction_temperature_k: entry_of(
                    &self.board_cold_junction_temperature_k,
                    i,
                ),
                board_cold_junction_offset_k: self.board_cold_junction_offset_k,
                thermocouple_voltage_v: entry_of(&self.thermocouple_voltage_v, i),
            };
            v.push(record);
            i = i + 1;
        }
        v
    }
}

/// The columns that a reader holds once it was given all `records`, and for
/// each the measurement at the same place of `measurements`.
pub open spec fn columns_read(
    kind: CalibrationKind,
    records: Seq<CalibrationRecord>,
    measurements: Seq<Real>,
) -> Columns
    decreases records.len(),
{
    if records.len() == 0 {
        Columns::none()
    } else {
        let n = records.len() - 1;
        after_record(
            kind,
            columns_read(kind, records.drop_last(), measurements.take(n)),
            records[n],
            measurements[n],
        )
    }
}

/// The first `n` samples of a capture.
spec fn first_samples(c: Columns, kind: CalibrationKind, n: int) -> Columns {
    if n == 0 {
        Columns::none()
    } else {
        Columns {
            timestamps_ns: c.timestamps_ns.take(n),
            times_s: c.times_s.take(n),
            measured_a: c.measured_a.take(n),
            reference_a: c.reference_a.take(n),
            board_temperature_k: if kind == CalibrationKind::Thermocouple {
                c.board_temperature_k.take(n)
            } else {
                Seq::empty()
            },
            voltage_v: if kind == CalibrationKind::Thermocouple {
                c.voltage_v.take(n)
            } else {
                Seq::empty()
            },
            ..c
        }
    }
}

/// What reading gives back of writing: the rows of a capture, read with the
/// capture's own measurements, give no error and the same columns. The
/// cold-junction values are those of a thermocouple run, which has an offset, or
/// of another run, which has none.
pub proof fn law_rows_read_back(
    path: Seq<char>,
    capture: ChannelCapture,
    records: Seq<CalibrationRecord>,
)
    requires
        capture.wf(),
        capture.columns().times_s.len() > 0,
        capture.channel.kind == CalibrationKind::Thermocouple
            ==> capture.board_cold_junction_offset_k is Some,
        capture.channel.kind != CalibrationKind::Thermocouple
            ==> capture.board_cold_junction_offset_k is None
            && capture.calibrator_cold_junction_temperature_k is None,
        records.len() == capture.rows(),
        forall|i: int| 0 <= i < records.len() ==> is_row(#[trigger] records[i], capture, i),
    ensures
        columns_read(capture.channel.kind, records, capture.measured_a@) == capture.columns(),
        forall|i: int|
            0 <= i < records.len() ==> record_error(
                path,
                capture.serial_number,
                capture.channel,
                columns_read(capture.channel.kind, records.take(i), capture.measured_a@.take(i)),
                #[trigger] records[i],
            ) is None,
{
    let kind = capture.channel.kind;
    let c = capture.columns();
    assert forall|i: int| 0 <= i < records.len() implies record_error(
        path,
        capture.serial_number,
        capture.channel,
        columns_read(kind, records.take(i), capture.measured_a@.take(i)),
        #[trigger] records[i],
    ) is None by {
        lemma_rows_read_back(capture, records, i);
    }
    lemma_rows_read_back(capture, records, records.len() as int);
    assert(records.take(records.len() as int) =~= records);
    assert(c.measured_a.take(records.len() as int) =~= c.measured_a);
    assert(first_samples(c, kind, records.len() as int) =~= c);
}

proof fn lemma_rows_read_back(capture: ChannelCapture, records: Seq<CalibrationRecord>, n: int)
    requires
        capture.wf(),
        capture.channel.kind == CalibrationKind::Thermocouple
            ==> capture.board_cold_junction_offset_k is Some,
        capture.channel.kind != CalibrationKind::Thermocouple
            ==> capture.board_cold_junction_offset_k is None
            && capture.calibrator_cold_junction_temperature_k is None,
        records.len() == capture.rows(),
        forall|i: int| 0 <= i < records.len() ==> is_row(#[trigger] records[i], capture, i),
        0 <= n <= records.len(),
    ensures
        columns_read(capture.channel.kind, records.take(n), capture.measured_a@.take(n))
            == first_samples(capture.columns(), capture.channel.kind, n),
    decreases n,
{
    if n > 0 {
        let kind = capture.channel.kind;
        let c = capture.columns();
        lemma_rows_read_back(capture, records, n - 1);
        assert(records.take(n).drop_last() =~= records.take(n - 1));
        assert(capture.measured_a@.take(n).take(n - 1) =~= capture.measured_a@.take(n - 1));
        let before = first_samples(c, kind, n - 1);
        assert(is_row(records[n - 1], capture, n - 1));
        assert(c.times_s[n - 1].finite());
        if n > 1 {
            assert(before.times_s.last() == c.times_s[n - 2]);
            assert(c.times_s[n - 2].lt(c.times_s[n - 1]));
        }
        assert(before.in_time(c.times_s[n - 1]));
        assert(c.measured_a[n - 1].finite());
        if kind == CalibrationKind::Thermocouple {
            assert(c.board_temperature_k[n - 1].finite());
            assert(c.voltage_v[n - 1].finite());
        }
        assert(c.timestamps_ns.take(n) =~= before.timestamps_ns.push(c.timestamps_ns[n - 1]));
        assert(c.times_s.take(n) =~= before.times_s.push(c.times_s[n - 1]));
        assert(c.measured_a.take(n) =~= before.measured_a.push(c.measured_a[n - 1]));
        assert(c.reference_a.take(n) =~= before.reference_a.push(c.reference_a[n - 1]));
        assert(after_record(kind, before, records[n - 1], c.measured_a[n - 1])
            =~= first_samples(c, kind, n));
    }
}

/// A file can be read exactly where it has a record, the first one names the signal of
/// a channel, and the folder is known.
pub proof fn law_files_with_records_are_read(
    path: Seq<char>,
    parent: Option<&str>,
    records: Seq<CalibrationRecord>,
)
    ensures
        open_error(path, parent, records) is None <==> {
            &&& records.len() > 0
            &&& channels::channel_named(
                records[0].signal_name@,
                channels::channel_table().len(),
            ) is Some
            &&& parent is Some
        },
{
}

/// A record belongs to a run exactly where it is of the board's model, of the same
/// serial number and of the same signal.
pub proof fn law_records_of_one_run_agree(
    path: Seq<char>,
    serial_number: u64,
    channel: CalibrationChannel,
    record: CalibrationRecord,
)
    ensures
        foreign_record(path, serial_number, channel, record) is None <==> {
            &&& record.model@ == MODEL_NAME@
            &&& record.serial_number == serial_number
            &&& record.signal_name@ == channel.signal_name@
        },
{
}

/// A record that is not later than the last sample is left out. Of the others, those of
/// a thermocouple give their voltage and the board's temperature where both are finite,
/// and those of another channel their measurement.
pub proof fn law_later_records_are_taken(
    kind: CalibrationKind,
    c: Columns,
    record: CalibrationRecord,
)
    ensures
        c.times_s.len() > 0 && record.time_s.le(c.times_s.last()) ==> record_step(kind, c, record)
            == RecordStep::Skip && examined(kind, c, record) == c,
        !record.time_s.finite() ==> record_step(kind, c, record) == RecordStep::Skip,
        record.time_s.finite() && (c.times_s.len() == 0 || c.times_s.last().lt(record.time_s)) ==> {
            &&& kind != CalibrationKind::Thermocouple ==> record_step(kind, c, record)
                == RecordStep::Measured(record.measured_a)
            &&& kind == CalibrationKind::Thermocouple ==> match (
                record.thermocouple_voltage_v,
                record.board_cold_junction_temperature_k,
            ) {
                (Some(v), Some(t)) => if v.finite() && t.finite() {
                    record_step(kind, c, record) matches RecordStep::Corrected {
                        voltage_v,
                        board_temperature_k,
                        ..
                    } && voltage_v == v && board_temperature_k == t
                } else {
                    record_step(kind, c, record) == RecordStep::Skip
                },
                _ => true,
            }
        },
{
}

/// The calibrator's temperature of a thermocouple run is the first one that a record
/// in time gives. The offset is the last one, that of the record itself where it has
/// one, and a measurement is corrected by it.
pub proof fn law_first_temperature_and_last_offset(
    c: Columns,
    record: CalibrationRecord,
)
    requires
        c.in_time(record.time_s),
    ensures
        ({
            let kind = CalibrationKind::Thermocouple;
            let after = examined(kind, c, record);
            &&& c.calibrator_temperature_k is Some ==> after.calibrator_temperature_k
                == c.calibrator_temperature_k
            &&& c.calibrator_temperature_k is None ==> after.calibrator_temperature_k
                == record.calibrator_cold_junction_temperature_k
            &&& record.board_cold_junction_offset_k is Some ==> after.offset_k
                == record.board_cold_junction_offset_k
            &&& record.board_cold_junction_offset_k is None ==> after.offset_k == c.offset_k
            &&& after.times_s == c.times_s && after.measured_a == c.measured_a
                && after.reference_a == c.reference_a && after.timestamps_ns == c.timestamps_ns
            &&& record_step(kind, c, record) matches RecordStep::Corrected { offset_k, .. } ==> (
            after.offset_k is Some ==> after.offset_k == Some(offset_k))
        }),
{
}

/// A record of a thermocouple run in time is an error exactly where it lacks the
/// board's temperature or the voltage, or where no record so far gave an offset. Other
/// records of the run are none.
pub proof fn law_incomplete_records_are_errors(
    path: Seq<char>,
    serial_number: u64,
    channel: CalibrationChannel,
    c: Columns,
    record: CalibrationRecord,
)
    requires
        foreign_record(path, serial_number, channel, record) is None,
    ensures
        record_error(path, serial_number, channel, c, record) is Some <==> {
            &&& c.in_time(record.time_s)
            &&& channel.kind == CalibrationKind::Thermocouple
            &&& {
                ||| record.board_cold_junction_temperature_k is None
                ||| record.thermocouple_voltage_v is None
                ||| record.board_cold_junction_offset_k is None && c.offset_k is None
            }
        },
{
}

} // verus!
