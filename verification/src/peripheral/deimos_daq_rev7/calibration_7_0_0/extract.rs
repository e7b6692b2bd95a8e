//! Selection of the usable samples of a finished run.

use vstd::prelude::*;
use crate::binary64;
use crate::binary64::Real;
use crate::text;
use crate::text::{debug_list, push_nat, same_text, sort_texts};
use super::capture;
use super::capture::ChannelCapture;
use super::channels::{CalibrationChannel, CalibrationKind};

verus! {

/// The board's own cold-junction temperature signal.
pub const BOARD_COLD_JUNCTION_SIGNAL_NAME: &'static str = "p1_board_rtd_filtered.y";

/// One recorded column.
#[derive(Debug)]
pub struct Column {
    pub name: String,
    pub values: Vec<Real>,
}

/// A span of time in which the operator held the input at a known reference.
#[derive(Debug, Clone, Copy)]
pub struct ManualReferenceWindow {
    pub reference_a: Real,
    pub start_time_s: Real,
    pub stop_time_s: Real,
}

/// The reference of the first window that holds `time`.
pub open spec fn window_reference(windows: Seq<ManualReferenceWindow>, time: Real) -> Option<Real>
    decreases windows.len(),
{
    if windows.len() == 0 {
        None
    } else if windows[0].start_time_s.le(time) && time.le(windows[0].stop_time_s) {
        Some(windows[0].reference_a)
    } else {
        window_reference(windows.skip(1), time)
    }
}

/// The columns that a channel's samples come from.
pub ghost struct Source {
    pub times_s: Seq<Real>,
    pub measured: Seq<Real>,
    pub board_temperature: Option<Seq<Real>>,
    pub voltage: Option<Seq<Real>>,
}

impl Source {
    /// Number of samples.
    pub open spec fn len(self) -> nat {
        if self.measured.len() < self.times_s.len() {
            self.measured.len()
        } else {
            self.times_s.len()
        }
    }

    /// Whether all values of sample `i` are finite.
    pub open spec fn usable(self, i: int) -> bool {
        &&& self.times_s[i].finite()
        &&& self.measured[i].finite()
        &&& self.board_temperature matches Some(column) ==> column[i].finite()
        &&& self.voltage matches Some(column) ==> column[i].finite()
    }

    /// The samples among the first `n` that are usable and later than every
    /// sample accepted before them.
    pub open spec fn accepted(self, n: nat) -> Seq<int>
        decreases n,
    {
        if n == 0 {
            Seq::empty()
        } else {
            let before = self.accepted((n - 1) as nat);
            if self.usable(n - 1) && (before.len() == 0 || !self.times_s[n - 1].le(
                self.times_s[before.last()],
            )) {
                before.push(n - 1)
            } else {
                before
            }
        }
    }
}

/// The index of the first column with the given name, or the number of columns.
pub open spec fn column_index(columns: Seq<Column>, name: Seq<char>) -> int
    decreases columns.len(),
{
    if columns.len() == 0 {
        0
    } else if columns[0].name@ == name {
        0
    } else {
        1 + column_index(columns.skip(1), name)
    }
}

/// The values of the first column with the given name.
pub open spec fn column(columns: Seq<Column>, name: Seq<char>) -> Option<Seq<Real>> {
    let i = column_index(columns, name);
    if 0 <= i < columns.len() {
        Some(columns[i].values@)
    } else {
        None
    }
}

/// The names of the columns.
pub open spec fn column_names(columns: Seq<Column>) -> Seq<Seq<char>> {
    columns.map_values(|c: Column| c.name@)
}

/// Whether a message says that a signal is not among the columns, and lists the
/// names of the columns in order.
pub open spec fn is_missing_signal(e: Seq<char>, name: Seq<char>, columns: Seq<Column>) -> bool {
    exists|names: Seq<Seq<char>>|
        #![trigger text::debug_list_text(names)]
        text::sorted_texts(names) && names.to_multiset() == column_names(columns).to_multiset() && e
            == "Signal '"@ + name + "' was not found in dataframe columns: "@
            + text::debug_list_text(names)
}

fn find_column(columns: &[Column], name: &str) -> (r: Option<usize>)
    ensures
        match r {
            Some(i) => i < columns@.len() && column_index(columns@, name@) == i,
            None => column_index(columns@, name@) == columns@.len(),
        },
{
    let mut i: usize = 0;
    assert(columns@.skip(0) =~= columns@);
    while i < columns.len()
        invariant
            i <= columns@.len(),
            column_index(columns@, name@) == i + column_index(columns@.skip(i as int), name@),
        decreases columns@.len() - i,
    {
        assert(columns@.skip(i as int)[0] == columns@[i as int]);
        assert(columns@.skip(i as int).skip(1) =~= columns@.skip(i + 1));
        if same_text(columns[i].name.as_str(), name) {
            return Some(i);
        }
        i = i + 1;
    }
    None
}

fn missing_signal(columns: &[Column], name: &str) -> (e: String)
    ensures
        is_missing_signal(e@, name@, columns@),
{
    let mut names: Vec<String> = Vec::new();
    let mut i: usize = 0;
    while i < columns.len()
        invariant
            i <= columns@.len(),
            text::texts(names@) == column_names(columns@).take(i as int),
        decreases columns@.len() - i,
    {
        names.push(columns[i].name.clone());
        proof {
            broadcast use text::lemma_texts_push;
            let all = column_names(columns@);
            assert(all[i as int] == columns@[i as int].name@);
            assert(all.take(i + 1) =~= all.take(i as int).push(all[i as int]));
        }
        i = i + 1;
    }
    assert(column_names(columns@).take(columns@.len() as int) =~= column_names(columns@));
    let sorted = sort_texts(names);
    let mut e = "Signal '".to_owned();
    e.push_str(name);
    e.push_str("' was not found in dataframe columns: ");
    e.push_str(debug_list(sorted.as_slice()).as_str());
    proof {
        let list = text::texts(sorted@);
        assert(text::sorted_texts(list));
        assert(text::debug_list_text(list).len() >= 0);
    }
    e
}

/// Nanoseconds from the first timestamp to each one.
pub fn elapsed_ns(timestamps: &[i64]) -> (v: Vec<i64>)
    requires
        forall|i: int|
            0 <= i < timestamps@.len() ==> i64::MIN <= #[trigger] timestamps@[i] - timestamps@[0]
                <= i64::MAX,
    ensures
        v@.len() == timestamps@.len(),
        forall|i: int|
            0 <= i < v@.len() ==> #[trigger] v@[i] == timestamps@[i] - timestamps@[0],
{
    let mut v: Vec<i64> = Vec::new();
    let mut i: usize = 0;
    while i < timestamps.len()
        invariant
            i <= timestamps@.len(),
            v@.len() == i,
            forall|k: int|
                0 <= k < timestamps@.len() ==> i64::MIN <= #[trigger] timestamps@[k]
                    - timestamps@[0] <= i64::MAX,
            forall|k: int| 0 <= k < v@.len() ==> #[trigger] v@[k] == timestamps@[k] - timestamps@[0],
        decreases timestamps@.len() - i,
    {
        v.push(timestamps[i] - timestamps[0]);
        i = i + 1;
    }
    v
}

/// The usable samples of a run.
#[derive(Debug)]
pub struct SelectedSamples {
    pub timestamps_ns: Vec<i64>,
    pub times_s: Vec<Real>,
    pub measured_a: Vec<Real>,
    pub reference_a: Vec<Option<Real>>,
    pub board_cold_junction_temperature_k: Vec<Real>,
    pub thermocouple_voltage_v: Vec<Real>,
}

/// The columns of the run of a channel, where all of them are recorded.
pub open spec fn source(channel: CalibrationChannel, times_s: Seq<Real>, columns: Seq<Column>) -> Source {
    Source {
        times_s,
        measured: column(columns, channel.signal_name@)->0,
        board_temperature: if channel.kind == CalibrationKind::Thermocouple {
            column(columns, BOARD_COLD_JUNCTION_SIGNAL_NAME@)
        } else {
            None
        },
        voltage: match channel.voltage_signal() {
            Some(name) => column(columns, name),
            None => None,
        },
    }
}

/// The name of the first signal that a channel needs and that is not recorded.
pub open spec fn unrecorded_signal(channel: CalibrationChannel, columns: Seq<Column>) -> Option<
    Seq<char>,
> {
    if column(columns, channel.signal_name@) is None {
        Some(channel.signal_name@)
    } else if channel.voltage_signal() is Some && column(columns, channel.voltage_signal()->0)
        is None {
        channel.voltage_signal()
    } else if channel.kind == CalibrationKind::Thermocouple && column(
        columns,
        BOARD_COLD_JUNCTION_SIGNAL_NAME@,
    ) is None {
        Some(BOARD_COLD_JUNCTION_SIGNAL_NAME@)
    } else {
        None
    }
}

impl SelectedSamples {
    /// Whether these are the samples of `source` at `indices`.
    pub open spec fn are(
        self,
        source: Source,
        indices: Seq<int>,
        timestamps: Seq<i64>,
        windows: Seq<ManualReferenceWindow>,
    ) -> bool {
        &&& self.timestamps_ns@ == indices.map_values(|i: int| timestamps[i])
        &&& self.times_s@ == indices.map_values(|i: int| source.times_s[i])
        &&& self.measured_a@ == indices.map_values(|i: int| source.measured[i])
        &&& self.reference_a@ == indices.map_values(
            |i: int| window_reference(windows, source.times_s[i]),
        )
        &&& self.board_cold_junction_temperature_k@ == match source.board_temperature {
            Some(values) => indices.map_values(|i: int| values[i]),
            None => Seq::empty(),
        }
        &&& self.thermocouple_voltage_v@ == match source.voltage {
            Some(values) => indices.map_values(|i: int| values[i]),
            None => Seq::empty(),
        }
    }
}

fn reference_at(windows: &[ManualReferenceWindow], time: Real) -> (r: Option<Real>)
    ensures
        r == window_reference(windows@, time),
{
    let mut i: usize = 0;
    assert(windows@.skip(0) =~= windows@);
    while i < windows.len()
        invariant
            i <= windows@.len(),
            window_reference(windows@, time) == window_reference(windows@.skip(i as int), time),
        decreases windows@.len() - i,
    {
        assert(windows@.skip(i as int)[0] == windows@[i as int]);
        assert(windows@.skip(i as int).skip(1) =~= windows@.skip(i + 1));
        if windows[i].start_time_s.at_most(time) && time.at_most(windows[i].stop_time_s) {
            return Some(windows[i].reference_a);
        }
        i = i + 1;
    }
    None
}

/// Selects the usable samples of a run. `times_s` holds the seconds from the
/// first timestamp to each one.
pub fn select_samples(
    channel: CalibrationChannel,
    timestamps: &[i64],
    times_s: &[Real],
    columns: &[Column],
    windows: &[ManualReferenceWindow],
) -> (r: Result<SelectedSamples, String>)
    requires
        times_s@.len() == timestamps@.len(),
        forall|i: int|
            0 <= i < columns@.len() ==> (#[trigger] columns@[i]).values@.len() == timestamps@.len(),
    ensures
        match r {
            Err(e) => match unrecorded_signal(channel, columns@) {
                Some(name) => is_missing_signal(e@, name, columns@),
                None => timestamps@.len() == 0 && e@ == "No samples were captured for "@
                    + channel.label@,
            },
            Ok(selected) => {
                let source = source(channel, times_s@, columns@);
                &&& unrecorded_signal(channel, columns@) is None
                &&& timestamps@.len() > 0
                &&& selected.are(source, source.accepted(source.len()), timestamps@, windows@)
            },
        },
{
    let measured = match find_column(columns, channel.signal_name) {
        Some(i) => i,
        None => {
            return Err(missing_signal(columns, channel.signal_name));
        },
    };
    let voltage = match channel.tc_voltage_signal_name() {
        Some(name) => match find_column(columns, name) {
            Some(i) => Some(i),
            None => {
                return Err(missing_signal(columns, name));
            },
        },
        None => None,
    };
    let board = if channel.kind == CalibrationKind::Thermocouple {
        match find_column(columns, BOARD_COLD_JUNCTION_SIGNAL_NAME) {
            Some(i) => Some(i),
            None => {
                return Err(missing_signal(columns, BOARD_COLD_JUNCTION_SIGNAL_NAME));
            },
        }
    } else {
        None
    };
    if timestamps.len() == 0 {
        let mut e = "No samples were captured for ".to_owned();
        e.push_str(channel.label);
        return Err(e);
    }
    let ghost source = source(channel, times_s@, columns@);
    let mut selected = SelectedSamples {
        timestamps_ns: Vec::new(),
        times_s: Vec::new(),
        measured_a: Vec::new(),
        reference_a: Vec::new(),
        board_cold_junction_temperature_k: Vec::new(),
        thermocouple_voltage_v: Vec::new(),
    };
    let mut i: usize = 0;
    assert(selected.are(source, source.accepted(0), timestamps@, windows@)) by {
        assert(selected.timestamps_ns@ =~= Seq::<int>::empty().map_values(|i: int| timestamps@[i]));
        assert(selected.times_s@ =~= Seq::<int>::empty().map_values(|i: int| source.times_s[i]));
        assert(selected.measured_a@ =~= Seq::<int>::empty().map_values(|i: int| source.measured[i]));
        assert(selected.reference_a@ =~= Seq::<int>::empty().map_values(
            |i: int| window_reference(windows@, source.times_s[i]),
        ));
        if source.board_temperature is Some {
            assert(selected.board_cold_junction_temperature_k@ =~= Seq::<int>::empty().map_values(
                |i: int| source.board_temperature->0[i],
            ));
        }
        if source.voltage is Some {
            assert(selected.thermocouple_voltage_v@ =~= Seq::<int>::empty().map_values(
                |i: int| source.voltage->0[i],
            ));
        }
    }
    while i < timestamps.len()
        invariant
            i <= timestamps@.len(),
            times_s@.len() == timestamps@.len(),
            measured < columns@.len(),
            voltage matches Some(v) ==> v < columns@.len(),
            board matches Some(b) ==> b < columns@.len(),
            forall|k: int|
                0 <= k < columns@.len() ==> (#[trigger] columns@[k]).values@.len()
                    == timestamps@.len(),
            source.times_s == times_s@,
            source.measured == columns@[measured as int].values@,
            source.board_temperature == match board {
                Some(b) => Some(columns@[b as int].values@),
                None => None,
            },
            source.voltage == match voltage {
                Some(v) => Some(columns@[v as int].values@),
                None => None,
            },
            selected.are(source, source.accepted(i as nat), timestamps@, windows@),
        decreases timestamps@.len() - i,
    {
        let ghost before = source.accepted(i as nat);
        let ghost was = selected;
        let time = times_s[i];
        let measurement = columns[measured].values[i];
        let board_value = match board {
            Some(b) => Some(columns[b].values[i]),
            None => None,
        };
        let voltage_value = match voltage {
            Some(v) => Some(columns[v].values[i]),
            None => None,
        };
        let finite = time.is_finite() && measurement.is_finite() && match board_value {
            Some(x) => x.is_finite(),
            None => true,
        } && match voltage_value {
            Some(x) => x.is_finite(),
            None => true,
        };
        let n = selected.times_s.len();
        proof {
            assert(selected.times_s@.len() == before.len());
            if before.len() > 0 {
                assert(selected.times_s@[before.len() - 1] == source.times_s[before.last()]);
            }
        }
        if finite && (n == 0 || !time.at_most(selected.times_s[n - 1])) {
            selected.timestamps_ns.push(timestamps[i]);
            selected.times_s.push(time);
            selected.measured_a.push(measurement);
            selected.reference_a.push(reference_at(windows, time));
            if let Some(x) = board_value {
                selected.board_cold_junction_temperature_k.push(x);
            }
            if let Some(x) = voltage_value {
                selected.thermocouple_voltage_v.push(x);
            }
            proof {
                let after = source.accepted((i + 1) as nat);
                assert(after == before.push(i as int));
                assert(selected.timestamps_ns@ =~= after.map_values(|i: int| timestamps@[i]));
                assert(selected.times_s@ =~= after.map_values(|i: int| source.times_s[i]));
                assert(selected.measured_a@ =~= after.map_values(|i: int| source.measured[i]));
                assert(selected.reference_a@ =~= after.map_values(
                    |i: int| window_reference(windows@, source.times_s[i]),
                ));
                if source.board_temperature is Some {
                    assert(selected.board_cold_junction_temperature_k@ =~= after.map_values(
                        |i: int| source.board_temperature->0[i],
                    ));
                }
                if source.voltage is Some {
                    assert(selected.thermocouple_voltage_v@ =~= after.map_values(
                        |i: int| source.voltage->0[i],
                    ));
                }
            }
        }
        i = i + 1;
    }
    assert(source.len() == timestamps@.len());
    Ok(selected)
}

/// Temperatures that were corrected by the offset between the calibrator's and
/// the board's cold junction.
#[derive(Debug)]
pub struct CorrectedTemperatures {
    pub offset_k: Real,
    pub measured_a: Vec<Real>,
}

/// The error of finishing a capture of `n` samples.
pub open spec fn finish_error(
    channel: CalibrationChannel,
    n: nat,
    calibrator_temperature: Option<Real>,
    corrected: Option<CorrectedTemperatures>,
    board: nat,
    voltage: nat,
) -> Option<Seq<char>> {
    if n < 2 {
        Some(
            "Need at least two finite monotonic samples for "@ + channel.label@ + ", got "@
                + text::nat_text(n),
        )
    } else if channel.kind != CalibrationKind::Thermocouple {
        None
    } else if calibrator_temperature is None {
        Some("Missing VA710 cold-junction temperature for "@ + channel.label@)
    } else if board != n || voltage != n || corrected is None || corrected->0.measured_a@.len() != n {
        Some(
            "Thermocouple capture for "@ + channel.label@
                + " is missing voltage or board cold-junction samples"@,
        )
    } else {
        None
    }
}

impl SelectedSamples {
    /// Finishes a capture. On a thermocouple channel the corrected temperatures
    /// take the place of the recorded ones.
    pub fn into_capture(
        self,
        serial_number: u64,
        channel: CalibrationChannel,
        op_name: String,
        op_dir: String,
        calibrator_cold_junction_temperature_k: Option<Real>,
        corrected: Option<CorrectedTemperatures>,
    ) -> (r: Result<ChannelCapture, String>)
        requires
            self.measured_a@.len() == self.times_s@.len(),
        ensures
            ({
                let error = finish_error(
                    channel,
                    self.times_s@.len(),
                    calibrator_cold_junction_temperature_k,
                    corrected,
                    self.board_cold_junction_temperature_k@.len(),
                    self.thermocouple_voltage_v@.len(),
                );
                let thermocouple = channel.kind == CalibrationKind::Thermocouple;
                match r {
                    Err(e) => error == Some(e@),
                    Ok(c) => {
                        &&& error is None
                        &&& c.serial_number == serial_number
                        &&& c.channel == channel
                        &&& c.op_name == op_name
                        &&& c.op_dir == op_dir
                        &&& c.timestamps_ns == self.timestamps_ns
                        &&& c.times_s == self.times_s
                        &&& c.reference_a == self.reference_a
                        &&& c.board_cold_junction_temperature_k
                            == self.board_cold_junction_temperature_k
                        &&& c.thermocouple_voltage_v == self.thermocouple_voltage_v
                        &&& c.calibrator_cold_junction_temperature_k
                            == calibrator_cold_junction_temperature_k
                        &&& thermocouple ==> c.measured_a == corrected->0.measured_a
                            && c.board_cold_junction_offset_k == Some(corrected->0.offset_k)
                        &&& !thermocouple ==> c.measured_a == self.measured_a
                            && c.board_cold_junction_offset_k is None
                    },
                }
            }),
    {
        let n = self.times_s.len();
        if n < 2 {
            let mut e = "Need at least two finite monotonic samples for ".to_owned();
            e.push_str(channel.label);
            e.push_str(", got ");
            push_nat(&mut e, n as u128);
            return Err(e);
        }
        let mut measured_a = self.measured_a;
        let mut offset_k: Option<Real> = None;
        if channel.kind == CalibrationKind::Thermocouple {
            if calibrator_cold_junction_temperature_k.is_none() {
                let mut e = "Missing VA710 cold-junction temperature for ".to_owned();
                e.push_str(channel.label);
                return Err(e);
            }
            let complete = match &corrected {
                Some(c) => c.measured_a.len() == n,
                None => false,
            };
            if !complete || self.board_cold_junction_temperature_k.len() != n
                || self.thermocouple_voltage_v.len() != n {
                let mut e = "Thermocouple capture for ".to_owned();
                e.push_str(channel.label);
                e.push_str(" is missing voltage or board cold-junction samples");
                return Err(e);
            }
            if let Some(c) = corrected {
                measured_a = c.measured_a;
                offset_k = Some(c.offset_k);
            }
        }
        Ok(
            ChannelCapture {
                serial_number,
                channel,
                op_name,
                op_dir,
                timestamps_ns: self.timestamps_ns,
                times_s: self.times_s,
                measured_a,
                reference_a: self.reference_a,
                calibrator_cold_junction_temperature_k,
                board_cold_junction_temperature_k: self.board_cold_junction_temperature_k,
                board_cold_junction_offset_k: offset_k,
                thermocouple_voltage_v: self.thermocouple_voltage_v,
            },
        )
    }
}

/// The accepted samples are usable samples in their order, and their times increase.
pub proof fn law_accepted_samples_increase(source: Source, n: nat)
    ensures
        forall|k: int|
            0 <= k < source.accepted(n).len() ==> 0 <= #[trigger] source.accepted(n)[k] < n
                && source.usable(source.accepted(n)[k]),
        forall|k: int, l: int|
            0 <= k < l < source.accepted(n).len() ==> #[trigger] source.accepted(n)[k]
                < #[trigger] source.accepted(n)[l],
        capture::increasing(source.accepted(n).map_values(|i: int| source.times_s[i])),
    decreases n,
{
    if n > 0 {
        law_accepted_samples_increase(source, (n - 1) as nat);
        let before = source.accepted((n - 1) as nat);
        let after = source.accepted(n);
        let times = before.map_values(|i: int| source.times_s[i]);
        let all = after.map_values(|i: int| source.times_s[i]);
        if after.len() > before.len() {
            assert(after == before.push(n - 1));
            assert forall|k: int, l: int| 0 <= k < l < all.len() implies (#[trigger] all[k]).lt(
                #[trigger] all[l],
            ) by {
                assert(all[k] == times[k]);
                if l < before.len() {
                    assert(all[l] == times[l]);
                } else {
                    let last = before.len() - 1;
                    assert(source.usable(before[last]));
                    assert(times[last].finite());
                    assert(k < last ==> times[k].lt(times[last]));
                }
            }
            assert forall|k: int| 0 <= k < all.len() implies (#[trigger] all[k]).finite() by {
                if k < before.len() {
                    assert(all[k] == times[k]);
                }
            }
        }
    }
}

/// A time has the reference of the first window from whose start to whose end it
/// is, both included, and it has none where it is in no window.
pub proof fn law_reference_is_of_the_first_window(
    windows: Seq<ManualReferenceWindow>,
    time: Real,
)
    ensures
        match window_reference(windows, time) {
            Some(reference) => exists|k: int|
                {
                    &&& 0 <= k < windows.len()
                    &&& (#[trigger] windows[k]).start_time_s.le(time)
                    &&& time.le(windows[k].stop_time_s)
                    &&& reference == windows[k].reference_a
                    &&& forall|j: int|
                        0 <= j < k ==> !(#[trigger] windows[j]).start_time_s.le(time) || !time.le(
                            windows[j].stop_time_s,
                        )
                },
            None => forall|k: int|
                0 <= k < windows.len() ==> !(#[trigger] windows[k]).start_time_s.le(time)
                    || !time.le(windows[k].stop_time_s),
        },
    decreases windows.len(),
{
    if windows.len() > 0 && !(windows[0].start_time_s.le(time) && time.le(
        windows[0].stop_time_s,
    )) {
        let rest = windows.skip(1);
        law_reference_is_of_the_first_window(rest, time);
        match window_reference(rest, time) {
            Some(reference) => {
                let k = choose|k: int|
                    {
                        &&& 0 <= k < rest.len()
                        &&& (#[trigger] rest[k]).start_time_s.le(time)
                        &&& time.le(rest[k].stop_time_s)
                        &&& reference == rest[k].reference_a
                        &&& forall|j: int|
                            0 <= j < k ==> !(#[trigger] rest[j]).start_time_s.le(time) || !time.le(
                                rest[j].stop_time_s,
                            )
                    };
                assert(windows[k + 1] == rest[k]);
                assert forall|j: int| 0 <= j < k + 1 implies !(
                #[trigger] windows[j]).start_time_s.le(time) || !time.le(
                    windows[j].stop_time_s,
                ) by {
                    if j > 0 {
                        assert(windows[j] == rest[j - 1]);
                    }
                }
            },
            None => {
                assert forall|k: int| 0 <= k < windows.len() implies !(
                #[trigger] windows[k]).start_time_s.le(time) || !time.le(
                    windows[k].stop_time_s,
                ) by {
                    if k > 0 {
                        assert(windows[k] == rest[k - 1]);
                    }
                }
            },
        }
    }
}

/// A column that is found has the name and is the first that has it. None is found
/// only where none has it.
pub proof fn law_first_column_of_a_name_is_found(columns: Seq<Column>, name: Seq<char>)
    ensures
        match column(columns, name) {
            Some(values) => exists|c: int|
                {
                    &&& 0 <= c < columns.len()
                    &&& (#[trigger] columns[c]).name@ == name
                    &&& values == columns[c].values@
                    &&& forall|j: int| 0 <= j < c ==> (#[trigger] columns[j]).name@ != name
                },
            None => forall|c: int| 0 <= c < columns.len() ==> (#[trigger] columns[c]).name@ != name,
        },
{
    lemma_column_index(columns, name);
    let c = column_index(columns, name);
    if c < columns.len() {
        assert(columns[c].name@ == name);
    }
}

proof fn lemma_column_index(columns: Seq<Column>, name: Seq<char>)
    ensures
        0 <= column_index(columns, name) <= columns.len(),
        column_index(columns, name) < columns.len() ==> columns[column_index(
            columns,
            name,
        )].name@ == name,
        forall|j: int|
            0 <= j < column_index(columns, name) ==> (#[trigger] columns[j]).name@ != name,
    decreases columns.len(),
{
    if columns.len() > 0 && columns[0].name@ != name {
        let rest = columns.skip(1);
        lemma_column_index(rest, name);
        let n = column_index(columns, name);
        assert(n < columns.len() ==> columns[n] == rest[n - 1]);
        assert forall|j: int| 0 <= j < n implies (#[trigger] columns[j]).name@ != name by {
            if j > 0 {
                assert(columns[j] == rest[j - 1]);
            }
        }
    }
}

/// Each selected sample stands for one sample `i` of the run, of which it has the
/// timestamp, the time, the measurement of the channel and, on a thermocouple
/// channel, the temperature and the voltage. It has a reference exactly where its
/// time is in a window.
pub proof fn law_selected_sample_is_of_the_run(
    selected: SelectedSamples,
    channel: CalibrationChannel,
    timestamps: Seq<i64>,
    times_s: Seq<Real>,
    columns: Seq<Column>,
    windows: Seq<ManualReferenceWindow>,
    k: int,
) -> (i: int)
    requires
        unrecorded_signal(channel, columns) is None,
        ({
            let source = source(channel, times_s, columns);
            selected.are(source, source.accepted(source.len()), timestamps, windows)
        }),
        0 <= k < selected.times_s@.len(),
    ensures
        0 <= i < times_s.len(),
        selected.timestamps_ns@.len() == selected.times_s@.len(),
        selected.measured_a@.len() == selected.times_s@.len(),
        selected.reference_a@.len() == selected.times_s@.len(),
        selected.timestamps_ns@[k] == timestamps[i],
        selected.times_s@[k] == times_s[i],
        times_s[i].finite(),
        column(columns, channel.signal_name@) matches Some(measured) && selected.measured_a@[k]
            == measured[i] && measured[i].finite(),
        selected.reference_a@[k] is Some <==> exists|w: int|
            0 <= w < windows.len() && (#[trigger] windows[w]).start_time_s.le(times_s[i])
                && times_s[i].le(windows[w].stop_time_s),
        selected.reference_a@[k] matches Some(reference) ==> exists|w: int|
            0 <= w < windows.len() && (#[trigger] windows[w]).start_time_s.le(times_s[i])
                && times_s[i].le(windows[w].stop_time_s) && windows[w].reference_a == reference,
        channel.kind == CalibrationKind::Thermocouple ==> (column(
            columns,
            BOARD_COLD_JUNCTION_SIGNAL_NAME@,
        ) matches Some(board) && selected.board_cold_junction_temperature_k@.len()
            == selected.times_s@.len() && selected.board_cold_junction_temperature_k@[k]
            == board[i]),
        channel.kind != CalibrationKind::Thermocouple
            ==> selected.board_cold_junction_temperature_k@.len() == 0,
        channel.voltage_signal() matches Some(name) ==> (column(columns, name) matches Some(voltage)
            && selected.thermocouple_voltage_v@.len() == selected.times_s@.len()
            && selected.thermocouple_voltage_v@[k] == voltage[i]),
        channel.voltage_signal() is None ==> selected.thermocouple_voltage_v@.len() == 0,
{
    let source = source(channel, times_s, columns);
    let indices = source.accepted(source.len());
    law_accepted_samples_increase(source, source.len());
    let i = indices[k];
    assert(source.usable(i));
    law_reference_is_of_the_first_window(windows, times_s[i]);
    assert(selected.reference_a@[k] == window_reference(windows, times_s[i]));
    i
}

/// A sample is usable exactly where none of its values is infinite or no number, and
/// none of the columns that it needs makes it so.
pub proof fn law_usable_samples_are_finite(source: Source, i: int)
    ensures
        source.usable(i) ==> !source.times_s[i].nan() && source.times_s[i].magnitude()
            != binary64::INFINITE && !source.measured[i].nan() && source.measured[i].magnitude()
            != binary64::INFINITE,
        source.usable(i) ==> (source.board_temperature matches Some(x) ==> !x[i].nan()
            && x[i].magnitude() != binary64::INFINITE),
        source.usable(i) ==> (source.voltage matches Some(x) ==> !x[i].nan() && x[i].magnitude()
            != binary64::INFINITE),
        source.times_s[i].finite() && source.measured[i].finite() && (
        source.board_temperature matches Some(x) ==> x[i].finite()) && (
        source.voltage matches Some(x) ==> x[i].finite()) ==> source.usable(i),
{
}

/// Of the usable samples each one is selected that is later than all usable samples
/// before it, and no sample that is not usable is.
pub proof fn law_later_samples_are_accepted(source: Source, n: nat, i: int)
    requires
        0 <= i < n,
    ensures
        source.accepted(n).contains(i) ==> source.usable(i),
        source.usable(i) && (forall|j: int|
            0 <= j < i && source.usable(j) ==> (#[trigger] source.times_s[j]).lt(source.times_s[i]))
            ==> source.accepted(n).contains(i),
        !source.accepted(n).contains(i) && source.usable(i) ==> exists|j: int|
            0 <= j < i && source.usable(j) && source.times_s[i].le(#[trigger] source.times_s[j]),
    decreases n,
{
    law_accepted_samples_increase(source, n);
    let all = source.accepted(n);
    let before = source.accepted((n - 1) as nat);
    if i < n - 1 {
        law_later_samples_are_accepted(source, (n - 1) as nat, i);
        if before.contains(i) {
            let k = choose|k: int| 0 <= k < before.len() && before[k] == i;
            assert(all[k] == i);
        }
        if all.contains(i) {
            let k = choose|k: int| 0 <= k < all.len() && all[k] == i;
            assert(k < before.len() ==> before[k] == i);
            assert(before.contains(i));
        }
    } else {
        if all.len() > before.len() {
            assert(all.last() == i);
            assert(all[all.len() - 1] == i);
        } else {
            assert(!all.contains(i)) by {
                if all.contains(i) {
                    law_accepted_samples_increase(source, (n - 1) as nat);
                    let k = choose|k: int| 0 <= k < all.len() && all[k] == i;
                    assert(before[k] == i);
                }
            }
            if source.usable(i) {
                law_accepted_samples_increase(source, (n - 1) as nat);
                let j = before[before.len() - 1];
                assert(source.usable(j));
                assert(source.times_s[i].le(source.times_s[j]));
            }
        }
    }
}

/// A run can be finished exactly where it has two samples or more, and where it is of a
/// thermocouple also the calibrator's temperature and one board temperature, one
/// voltage and one corrected temperature for each sample.
pub proof fn law_complete_runs_are_finished(
    channel: CalibrationChannel,
    n: nat,
    calibrator_temperature: Option<Real>,
    corrected: Option<CorrectedTemperatures>,
    board: nat,
    voltage: nat,
)
    ensures
        finish_error(channel, n, calibrator_temperature, corrected, board, voltage) is None <==> {
            &&& n >= 2
            &&& channel.kind == CalibrationKind::Thermocouple ==> {
                &&& calibrator_temperature is Some
                &&& board == n
                &&& voltage == n
                &&& corrected matches Some(v) && v.measured_a@.len() == n
            }
        },
{
}

/// A run can be selected exactly where the channel's signal is recorded, and for a
/// thermocouple also the board's temperature and the channel's voltage.
pub proof fn law_recorded_channels_are_selected(channel: CalibrationChannel, columns: Seq<Column>)
    ensures
        unrecorded_signal(channel, columns) is None <==> {
            &&& exists|i: int|
                0 <= i < columns.len() && (#[trigger] columns[i]).name@ == channel.signal_name@
            &&& channel.voltage_signal() matches Some(name) ==> exists|i: int|
                0 <= i < columns.len() && (#[trigger] columns[i]).name@ == name
            &&& channel.kind == CalibrationKind::Thermocouple ==> exists|i: int|
                0 <= i < columns.len() && (#[trigger] columns[i]).name@
                    == BOARD_COLD_JUNCTION_SIGNAL_NAME@
        },
{
    law_first_column_of_a_name_is_found(columns, channel.signal_name@);
    law_first_column_of_a_name_is_found(columns, BOARD_COLD_JUNCTION_SIGNAL_NAME@);
    if let Some(name) = channel.voltage_signal() {
        law_first_column_of_a_name_is_found(columns, name);
    }
}

} // verus!
