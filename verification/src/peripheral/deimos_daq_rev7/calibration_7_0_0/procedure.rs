//! The course of the procedure: what is run, what the operator is asked, which
//! files are read and written, and what the records hold.

use vstd::prelude::*;
use crate::binary64;
use crate::binary64::Real;
use crate::datetime;
use crate::datetime::{utc_datestamp, UtcTime};
use crate::paths;
use crate::paths::sort_paths;
use crate::text;
use crate::text::{push_nat, same_text, strip_suffix, trim};
use super::capture::{CALIBRATION_DATA_SUFFIX, MODEL_NAME};
use super::channels::{CalibrationChannel, CalibrationKind};
use super::plot::PlotTheme;

verus! {

/// What one call of the procedure does.
#[derive(Debug, Clone, Copy, PartialEq, Eq, Structural)]
pub enum ProcedurePlan {
    /// Collect every channel and process each run at once.
    CollectAndProcess,
    /// Collect every channel.
    Collect,
    /// Process the files that are there.
    Process,
}

/// Chooses what one call of the procedure does.
pub fn procedure_plan(collect: bool, process: bool) -> (r: Result<ProcedurePlan, String>)
    ensures
        match r {
            Ok(ProcedurePlan::CollectAndProcess) => collect && process,
            Ok(ProcedurePlan::Collect) => collect && !process,
            Ok(ProcedurePlan::Process) => !collect && process,
            Err(e) => !collect && !process && e@
                == "At least one of collect or process must be true."@,
        },
{
    if collect && process {
        Ok(ProcedurePlan::CollectAndProcess)
    } else if collect {
        Ok(ProcedurePlan::Collect)
    } else if process {
        Ok(ProcedurePlan::Process)
    } else {
        Err("At least one of collect or process must be true.".to_owned())
    }
}

/// What the operator's answers decided about one channel.
#[derive(Debug, Clone, Copy, PartialEq, Eq, Structural)]
pub enum PromptDecision {
    Start { calibrator_cold_junction_temperature_c: Option<Real> },
    Skip,
}

/// Whether an answer skips the run: an `s` in either case.
pub open spec fn skips(line: Seq<char>) -> bool {
    text::trimmed(line) == "s"@ || text::trimmed(line) == "S"@
}

/// Tests whether an answer skips the run.
pub fn is_skip(line: &str) -> (r: bool)
    ensures
        r == skips(line@),
{
    let answer = trim(line);
    same_text(answer.as_str(), "s") || same_text(answer.as_str(), "S")
}

/// The question that a channel's prompt has reached.
#[derive(Debug, Clone, Copy, PartialEq, Eq, Structural)]
pub enum Prompt {
    /// The calibrator's cold-junction temperature is asked for.
    ColdJunction,
    /// The operator is asked to start the run.
    Start { calibrator_cold_junction_temperature_c: Option<Real> },
}

/// The first question for a channel.
pub fn first_prompt(channel: CalibrationChannel) -> (r: Prompt)
    ensures
        r == if channel.kind == CalibrationKind::Thermocouple {
            Prompt::ColdJunction
        } else {
            Prompt::Start { calibrator_cold_junction_temperature_c: None }
        },
{
    if channel.kind == CalibrationKind::Thermocouple {
        Prompt::ColdJunction
    } else {
        Prompt::Start { calibrator_cold_junction_temperature_c: None }
    }
}

/// What follows an answer.
#[derive(Debug, Clone, Copy, PartialEq, Eq, Structural)]
pub enum PromptStep {
    Ask(Prompt),
    Decided(PromptDecision),
}

/// The message for a cold-junction temperature that is not a number.
pub open spec fn bad_temperature(line: Seq<char>, error: Seq<char>) -> Seq<char> {
    "Expected VA710 cold-junction temperature in degC or 's' to skip, got '"@ + text::trimmed(line)
        + "': "@ + error
}

/// Takes an answer. `number` is the answer read as a number, or why it is none.
pub fn answer_prompt(prompt: Prompt, line: &str, number: Result<Real, String>) -> (r: Result<
    PromptStep,
    String,
>)
    ensures
        match r {
            Ok(PromptStep::Decided(PromptDecision::Skip)) => skips(line@),
            Ok(
                PromptStep::Decided(
                    PromptDecision::Start { calibrator_cold_junction_temperature_c },
                ),
            ) => !skips(line@) && prompt == (Prompt::Start {
                calibrator_cold_junction_temperature_c,
            }),
            Ok(PromptStep::Ask(next)) => !skips(line@) && prompt == Prompt::ColdJunction && (number
                matches Ok(x) && next == (Prompt::Start {
                calibrator_cold_junction_temperature_c: Some(x),
            })),
            Err(e) => !skips(line@) && prompt == Prompt::ColdJunction && (number matches Err(error)
                && e@ == bad_temperature(line@, error@)),
        },
{
    if is_skip(line) {
        return Ok(PromptStep::Decided(PromptDecision::Skip));
    }
    match prompt {
        Prompt::Start { calibrator_cold_junction_temperature_c } => Ok(
            PromptStep::Decided(PromptDecision::Start { calibrator_cold_junction_temperature_c }),
        ),
        Prompt::ColdJunction => match number {
            Ok(x) => Ok(
                PromptStep::Ask(Prompt::Start { calibrator_cold_junction_temperature_c: Some(x) }),
            ),
            Err(error) => {
                let mut e =
                    "Expected VA710 cold-junction temperature in degC or 's' to skip, got '".to_owned();
                e.push_str(trim(line).as_str());
                e.push_str("': ");
                e.push_str(error.as_str());
                Err(e)
            },
        },
    }
}

/// What the operator is told before a run.
pub open spec fn instructions_text(
    channel: CalibrationChannel,
    seconds: nat,
    range: Option<(Seq<char>, Seq<char>)>,
) -> Option<Seq<char>> {
    match channel.kind {
        CalibrationKind::Current4To20 => Some(
            "Ready the 0/5/10/15/20 mA auto-step sequence. Press Enter to start recording, then start the stepping sequence during the "@
                + text::nat_text(seconds) + " second run."@,
        ),
        CalibrationKind::Rtd => Some(
            "Ready the RTD calibrator at -200 C. Press Enter to start recording, then manually step up to +700 C and back down to -200 C during the "@
                + text::nat_text(seconds) + " second run with about 5 s holds every 100 K."@,
        ),
        CalibrationKind::Thermocouple => Some(
            "Ready the VA710 thermocouple simulator at -200 C. During the "@ + text::nat_text(
                seconds,
            )
                + " second run, manually step up to +1250 C and back down to -200 C with stable holds, targeting 50 K increments below 100 C and 100 K increments above 100 C."@,
        ),
        CalibrationKind::Voltage => match range {
            Some(range) => Some(
                "Connect the signal generator to this input and measure it with the Fluke 707. This run will prompt for "@
                    + text::nat_text(VOLTAGE_HOLD_COUNT as nat) + " target holds from "@ + range.0
                    + " V to "@ + range.1 + " V."@,
            ),
            None => None,
        },
    }
}

/// Number of holds in a run on a voltage channel.
pub const VOLTAGE_HOLD_COUNT: usize = 4;

/// What the operator is told before a run. `range` is the reference range of a
/// voltage channel, as it is shown.
pub fn instructions(channel: CalibrationChannel, range: Option<(&str, &str)>) -> (r: Result<
    String,
    String,
>)
    ensures
        ({
            let seconds: nat = match channel.kind {
                CalibrationKind::Current4To20 => 90,
                CalibrationKind::Rtd => 240,
                CalibrationKind::Thermocouple => 240,
                CalibrationKind::Voltage => 300,
            };
            let shown = match range {
                Some(range) => Some((range.0@, range.1@)),
                None => None,
            };
            match r {
                Ok(s) => instructions_text(channel, seconds, shown) == Some(s@),
                Err(e) => instructions_text(channel, seconds, shown) is None && e@
                    == "Missing voltage reference range for "@ + channel.label@,
            }
        }),
{
    let mut s = String::new();
    match channel.kind {
        CalibrationKind::Current4To20 => {
            s =
            "Ready the 0/5/10/15/20 mA auto-step sequence. Press Enter to start recording, then start the stepping sequence during the ".to_owned();
            push_nat(&mut s, channel.capture_seconds() as u128);
            s.push_str(" second run.");
        },
        CalibrationKind::Rtd => {
            s =
            "Ready the RTD calibrator at -200 C. Press Enter to start recording, then manually step up to +700 C and back down to -200 C during the ".to_owned();
            push_nat(&mut s, channel.capture_seconds() as u128);
            s.push_str(" second run with about 5 s holds every 100 K.");
        },
        CalibrationKind::Thermocouple => {
            s = "Ready the VA710 thermocouple simulator at -200 C. During the ".to_owned();
            push_nat(&mut s, channel.capture_seconds() as u128);
            s.push_str(
                " second run, manually step up to +1250 C and back down to -200 C with stable holds, targeting 50 K increments below 100 C and 100 K increments above 100 C.",
            );
        },
        CalibrationKind::Voltage => match range {
            Some(range) => {
                s =
                "Connect the signal generator to this input and measure it with the Fluke 707. This run will prompt for ".to_owned();
                push_nat(&mut s, VOLTAGE_HOLD_COUNT as u128);
                s.push_str(" target holds from ");
                s.push_str(range.0);
                s.push_str(" V to ");
                s.push_str(range.1);
                s.push_str(" V.");
            },
            None => {
                let mut e = "Missing voltage reference range for ".to_owned();
                e.push_str(channel.label);
                return Err(e);
            },
        },
    }
    Ok(s)
}

/// Constants of the channel kinds, by the bits of their encoding.
impl CalibrationChannel {
    /// Shortest hold that counts as a step: 2.5 s on currents, 0.5 s on RTDs,
    /// 1 s on thermocouples and 2 s on voltages.
    pub fn min_step_duration_s(self) -> (r: Real)
        ensures
            r.bits == match self.kind {
                CalibrationKind::Current4To20 => 0x4004000000000000u64,
                CalibrationKind::Rtd => 0x3fe0000000000000,
                CalibrationKind::Thermocouple => 0x3ff0000000000000,
                CalibrationKind::Voltage => 0x4000000000000000,
            },
    {
        match self.kind {
            CalibrationKind::Current4To20 => Real::from_bits(0x4004000000000000),
            CalibrationKind::Rtd => Real::from_bits(0x3fe0000000000000),
            CalibrationKind::Thermocouple => Real::from_bits(0x3ff0000000000000),
            CalibrationKind::Voltage => Real::from_bits(0x4000000000000000),
        }
    }

    /// Factor from base units to displayed units: 1000 on currents, else 1.
    pub fn display_scale(self) -> (r: Real)
        ensures
            r.bits == match self.kind {
                CalibrationKind::Current4To20 => 0x408f400000000000u64,
                _ => 0x3ff0000000000000,
            },
    {
        match self.kind {
            CalibrationKind::Current4To20 => Real::from_bits(0x408f400000000000),
            _ => Real::from_bits(0x3ff0000000000000),
        }
    }

    /// Accuracy of the calibrator in displayed units, where it does not depend on the
    /// reading.
    pub open spec fn error_limit(self) -> Real {
        Real {
            bits: match self.kind {
                CalibrationKind::Current4To20 => 0x3f747ae147ae147au64,
                CalibrationKind::Rtd => 0x3fd51eb851eb851f,
                CalibrationKind::Thermocouple => 0x3feb333333333333,
                CalibrationKind::Voltage => 0,
            },
        }
    }

    /// Accuracy of the calibrator in displayed units: 0.005 mA, 0.33 K, 0.85 K,
    /// and 0 V, since that of voltages depends on the reading.
    pub fn error_accuracy_limit(self) -> (r: Real)
        ensures
            r == self.error_limit(),
    {
        match self.kind {
            CalibrationKind::Current4To20 => Real::from_bits(0x3f747ae147ae147a),
            CalibrationKind::Rtd => Real::from_bits(0x3fd51eb851eb851f),
            CalibrationKind::Thermocouple => Real::from_bits(0x3feb333333333333),
            CalibrationKind::Voltage => Real::from_bits(0),
        }
    }

    /// Accuracy of the calibrator in the units of the residual, where it does not
    /// depend on the reading.
    pub open spec fn residual_limit(self) -> Real {
        Real {
            bits: match self.kind {
                CalibrationKind::Current4To20 => 0x4014000000000000u64,
                CalibrationKind::Rtd => 0x3fd51eb851eb851f,
                CalibrationKind::Thermocouple => 0x3feb333333333333,
                CalibrationKind::Voltage => 0,
            },
        }
    }

    /// Accuracy of the calibrator in the units of the residual: 5 uA, 0.33 K,
    /// 0.85 K, and 0 V, since that of voltages depends on the reading.
    pub fn residual_accuracy_limit(self) -> (r: Real)
        ensures
            r == self.residual_limit(),
    {
        match self.kind {
            CalibrationKind::Current4To20 => Real::from_bits(0x4014000000000000),
            CalibrationKind::Rtd => Real::from_bits(0x3fd51eb851eb851f),
            CalibrationKind::Thermocouple => Real::from_bits(0x3feb333333333333),
            CalibrationKind::Voltage => Real::from_bits(0),
        }
    }

    /// The bits of the reference range of a voltage channel: 0 V to 2.5 V, 0 V
    /// to 15 V, and the range of the x26 frontend.
    pub open spec fn reference_range_bits(self) -> Option<(u64, u64)> {
        let slug = self.slug@;
        if slug == "0_2V5_0"@ || slug == "0_2V5_1"@ {
            Some((0, 0x4004000000000000))
        } else if slug == "0_15V_0"@ || slug == "0_15V_1"@ {
            Some((0, 0x402e000000000000))
        } else if slug == "x26_0"@ || slug == "x26_1"@ {
            Some((0xbfa4667acce13348, 0x3fad67b701509aea))
        } else {
            None
        }
    }

    /// The reference range of a voltage channel.
    pub fn voltage_reference_range_v(self) -> (r: Option<(Real, Real)>)
        ensures
            match r {
                Some(range) => self.reference_range_bits() == Some((range.0.bits, range.1.bits)),
                None => self.reference_range_bits() is None,
            },
    {
        if same_text(self.slug, "0_2V5_0") || same_text(self.slug, "0_2V5_1") {
            Some((Real::from_bits(0), Real::from_bits(0x4004000000000000)))
        } else if same_text(self.slug, "0_15V_0") || same_text(self.slug, "0_15V_1") {
            Some((Real::from_bits(0), Real::from_bits(0x402e000000000000)))
        } else if same_text(self.slug, "x26_0") || same_text(self.slug, "x26_1") {
            Some((Real::from_bits(0xbfa4667acce13348), Real::from_bits(0x3fad67b701509aea)))
        } else {
            None
        }
    }
}

/// Whether a file name is that of a calibration data file.
pub open spec fn data_file_name(name: Option<&str>) -> bool {
    match name {
        Some(name) => text::ends_with(name@, CALIBRATION_DATA_SUFFIX@),
        None => false,
    }
}

/// Tests whether a file name is that of a calibration data file.
pub fn is_calibration_data_file(name: Option<&str>) -> (r: bool)
    ensures
        r == data_file_name(name),
{
    match name {
        Some(name) => strip_suffix(name, CALIBRATION_DATA_SUFFIX).is_some(),
        None => false,
    }
}

/// What stands at a path.
#[derive(Debug, Clone, Copy, PartialEq, Eq, Structural)]
pub enum PathKind {
    File,
    Folder,
    Missing,
}

/// A file that was found under a folder.
#[derive(Debug)]
pub struct FoundFile {
    pub path: String,
    pub name: Option<String>,
}

/// Whether a found file is a calibration data file.
pub open spec fn found_data_file(f: FoundFile) -> bool {
    match f.name {
        Some(name) => text::ends_with(name@, CALIBRATION_DATA_SUFFIX@),
        None => false,
    }
}

/// The paths of the calibration data files among the files found.
pub open spec fn data_paths(found: Seq<FoundFile>) -> Seq<Seq<char>> {
    found.filter(|f: FoundFile| found_data_file(f)).map_values(|f: FoundFile| f.path@)
}

/// The error of looking for calibration data at a path.
pub open spec fn discover_error(
    path: Seq<char>,
    kind: PathKind,
    name: Option<&str>,
    found: Seq<FoundFile>,
) -> Option<Seq<char>> {
    match kind {
        PathKind::File => if data_file_name(name) {
            None
        } else {
            Some(path + " is not a calibration data CSV ending in "@ + CALIBRATION_DATA_SUFFIX@)
        },
        PathKind::Folder => if data_paths(found).len() == 0 {
            Some(
                "No calibration data CSV files ending in "@ + CALIBRATION_DATA_SUFFIX@
                    + " found under "@ + path,
            )
        } else {
            None
        },
        PathKind::Missing => Some(path + " does not exist"@),
    }
}

/// Chooses the calibration data files to process: the file itself, or those
/// among the files found under a folder, in the order of their paths.
pub fn discover_calibration_data(
    path: &str,
    kind: PathKind,
    name: Option<&str>,
    found: &[FoundFile],
) -> (r: Result<Vec<String>, String>)
    ensures
        match r {
            Err(e) => discover_error(path@, kind, name, found@) == Some(e@),
            Ok(paths) => {
                &&& discover_error(path@, kind, name, found@) is None
                &&& paths::sorted_paths(text::texts(paths@))
                &&& text::texts(paths@).to_multiset() == if kind == PathKind::File {
                    seq![path@].to_multiset()
                } else {
                    data_paths(found@).to_multiset()
                }
            },
        },
{
    let mut paths: Vec<String> = Vec::new();
    match kind {
        PathKind::File => {
            if !is_calibration_data_file(name) {
                let mut e = path.to_owned();
                e.push_str(" is not a calibration data CSV ending in ");
                e.push_str(CALIBRATION_DATA_SUFFIX);
                return Err(e);
            }
            paths.push(path.to_owned());
            assert(text::texts(paths@) =~= seq![path@]);
        },
        PathKind::Folder => {
            let mut i: usize = 0;
            assert(text::texts(paths@) =~= data_paths(found@.take(0))) by {
                reveal(Seq::filter);
            }
            while i < found.len()
                invariant
                    i <= found@.len(),
                    text::texts(paths@) == data_paths(found@.take(i as int)),
                decreases found@.len() - i,
            {
                let data = match &found[i].name {
                    Some(name) => strip_suffix(name.as_str(), CALIBRATION_DATA_SUFFIX).is_some(),
                    None => false,
                };
                proof {
                    reveal(Seq::filter);
                    assert(found@.take(i + 1).drop_last() =~= found@.take(i as int));
                }
                if data {
                    let ghost before = paths@;
                    paths.push(found[i].path.clone());
                    proof {
                        broadcast use text::lemma_texts_push;
                        let kept = found@.take(i as int).filter(|f: FoundFile| found_data_file(f));
                        assert(kept.push(found@[i as int]).map_values(|f: FoundFile| f.path@)
                            =~= kept.map_values(|f: FoundFile| f.path@).push(
                            found@[i as int].path@,
                        ));
                    }
                }
                i = i + 1;
            }
            assert(found@.take(found@.len() as int) =~= found@);
            if paths.len() == 0 {
                assert(text::texts(paths@).len() == 0);
                let mut e = "No calibration data CSV files ending in ".to_owned();
                e.push_str(CALIBRATION_DATA_SUFFIX);
                e.push_str(" found under ");
                e.push_str(path);
                return Err(e);
            }
            assert(text::texts(paths@).len() == paths@.len());
        },
        PathKind::Missing => {
            let mut e = path.to_owned();
            e.push_str(" does not exist");
            return Err(e);
        },
    }
    Ok(sort_paths(paths))
}

/// The folder that the summary of processing a path goes to: the folder of a
/// file, else the path itself.
pub fn summary_dir_for_process_path(path: &str, kind: PathKind, parent: Option<&str>) -> (r: Result<
    String,
    String,
>)
    ensures
        match r {
            Ok(s) => if kind == PathKind::File {
                parent is Some && s@ == parent->0@
            } else {
                s@ == path@
            },
            Err(e) => kind == PathKind::File && parent is None && e@
                == "Unable to determine parent folder for "@ + path@,
        },
{
    if kind == PathKind::File {
        match parent {
            Some(parent) => Ok(parent.to_owned()),
            None => {
                let mut e = "Unable to determine parent folder for ".to_owned();
                e.push_str(path);
                Err(e)
            },
        }
    } else {
        Ok(path.to_owned())
    }
}

/// The name of a run on a channel.
pub open spec fn op_name_text(sn: u64, channel: CalibrationChannel, datestamp: Seq<char>) -> Seq<
    char,
> {
    MODEL_NAME@ + "_sn"@ + text::nat_text(sn as nat) + "_"@ + channel.slug@ + "_"@ + datestamp
}

/// The name of a run that starts at `now` on a channel.
pub fn op_name_for_channel(sn: u64, channel: CalibrationChannel, now: UtcTime) -> (s: String)
    requires
        now.valid(),
    ensures
        s@ == op_name_text(
            sn,
            channel,
            datetime::without_colons(datetime::rfc3339_seconds_text(now.secs, now.nanos)),
        ),
{
    op_name_with_datestamp(sn, channel, utc_datestamp(now).as_str())
}

/// The name of a run with the given datestamp on a channel.
pub fn op_name_with_datestamp(sn: u64, channel: CalibrationChannel, datestamp: &str) -> (s: String)
    ensures
        s@ == op_name_text(sn, channel, datestamp@),
{
    let mut s = MODEL_NAME.to_owned();
    s.push_str("_sn");
    push_nat(&mut s, sn as u128);
    s.push_str("_");
    s.push_str(channel.slug);
    s.push_str("_");
    s.push_str(datestamp);
    s
}

/// The name of the data file of a run.
pub fn data_file(op_name: &str) -> (s: String)
    ensures
        s@ == op_name@ + CALIBRATION_DATA_SUFFIX@,
{
    let mut s = op_name.to_owned();
    s.push_str(CALIBRATION_DATA_SUFFIX);
    s
}

/// The name of the file with the accepted samples of a run.
pub fn error_samples_file(op_name: &str) -> (s: String)
    ensures
        s@ == op_name@ + "_error_samples.csv"@,
{
    let mut s = op_name.to_owned();
    s.push_str("_error_samples.csv");
    s
}

/// The name of the calibration record of a run.
pub fn record_file(op_name: &str) -> (s: String)
    ensures
        s@ == op_name@ + "_calibration.json"@,
{
    let mut s = op_name.to_owned();
    s.push_str("_calibration.json");
    s
}

/// The name of the plot page of a run in one theme.
pub fn plot_file(op_name: &str, theme: PlotTheme) -> (s: String)
    ensures
        s@ == op_name@ + "_plots_"@ + theme.file_suffix_text() + ".html"@,
{
    let mut s = op_name.to_owned();
    s.push_str("_plots_");
    s.push_str(theme.file_suffix());
    s.push_str(".html");
    s
}

/// The name of the summary with the given datestamp.
pub fn summary_file(datestamp: &str) -> (s: String)
    ensures
        s@ == "rev7_calibration_summary_"@ + datestamp@ + ".json"@,
{
    let mut s = "rev7_calibration_summary_".to_owned();
    s.push_str(datestamp);
    s.push_str(".json");
    s
}

/// The run that wrote a data file is found again by the file's name.
pub proof fn law_data_file_names_its_run(op_name: Seq<char>)
    ensures
        super::capture::run_name(Some(op_name + CALIBRATION_DATA_SUFFIX@)) == op_name,
{
    let name = op_name + CALIBRATION_DATA_SUFFIX@;
    assert(name.skip(name.len() - CALIBRATION_DATA_SUFFIX@.len()) =~= CALIBRATION_DATA_SUFFIX@);
    assert(name.take(name.len() - CALIBRATION_DATA_SUFFIX@.len()) =~= op_name);
}

/// An answer skips the run exactly where it is an `s` in either case, with any white
/// space round it.
pub proof fn law_skipping_ignores_case_and_white_space(line: Seq<char>)
    ensures
        skips(line) <==> text::lower_text(text::trimmed(line)) == "s"@,
{
    reveal_strlit("s");
    reveal_strlit("S");
    let answer = text::trimmed(line);
    if skips(line) {
        assert(text::lower_text(answer) =~= "s"@);
    }
    if text::lower_text(answer) == "s"@ {
        assert(text::lower_text(answer).len() == answer.len());
        assert("s"@.len() == 1);
        assert(text::lower_text(answer)[0] == text::lower_char(answer[0]));
        assert("s"@[0] == 's');
        if answer[0] == 's' {
            assert(answer =~= "s"@);
        } else {
            assert(answer[0] == 'S');
            assert(answer =~= "S"@);
        }
    }
}

/// The accuracies of the calibrators: 5 uA, 0.33 K and 0.85 K. Those of the displayed
/// errors and of the residuals are the same, but that currents are displayed in
/// milliampere and their residuals in microampere. That of voltages is not constant.
pub proof fn law_accuracies_of_the_calibrators(channel: CalibrationChannel)
    ensures
        match channel.kind {
            CalibrationKind::Current4To20 => binary64::is_about(channel.error_limit(), 5, 1000)
                && binary64::is_about(channel.residual_limit(), 5, 1),
            CalibrationKind::Rtd => binary64::is_about(channel.error_limit(), 33, 100)
                && channel.residual_limit() == channel.error_limit(),
            CalibrationKind::Thermocouple => binary64::is_about(channel.error_limit(), 85, 100)
                && channel.residual_limit() == channel.error_limit(),
            CalibrationKind::Voltage => channel.error_limit() == binary64::zero()
                && channel.residual_limit() == binary64::zero(),
        },
{
    binary64::lemma_powers_of_two();
}

/// The voltage channels, and no others, have a reference range: up to 2.5 V and 15 V
/// from zero, and for the x26 frontend what an offset of 1.024 V and a gain of 25.7
/// leave of 0 V to 2.5 V.
pub proof fn law_reference_ranges(channel: CalibrationChannel)
    ensures
        channel.slug@ == "0_2V5_0"@ || channel.slug@ == "0_2V5_1"@ ==> (
        channel.reference_range_bits() matches Some((min, max)) && min == 0 && binary64::is_about(
            Real { bits: max },
            25,
            10,
        )),
        channel.slug@ == "0_15V_0"@ || channel.slug@ == "0_15V_1"@ ==> (
        channel.reference_range_bits() matches Some((min, max)) && min == 0 && binary64::is_about(
            Real { bits: max },
            15,
            1,
        )),
        channel.slug@ == "x26_0"@ || channel.slug@ == "x26_1"@ ==> (
        channel.reference_range_bits() matches Some((min, max)) && (Real { bits: min }).negative()
            && binary64::is_about((Real { bits: min }).negated(), 1024, 25_700)
            && binary64::is_about(Real { bits: max }, 2500 - 1024, 25_700)),
        channel.reference_range_bits() is Some ==> {
            ||| channel.slug@ == "0_2V5_0"@ || channel.slug@ == "0_2V5_1"@
            ||| channel.slug@ == "0_15V_0"@ || channel.slug@ == "0_15V_1"@
            ||| channel.slug@ == "x26_0"@ || channel.slug@ == "x26_1"@
        },
{
    binary64::lemma_powers_of_two();
    reveal_strlit("0_2V5_0");
    reveal_strlit("0_2V5_1");
    reveal_strlit("0_15V_0");
    reveal_strlit("0_15V_1");
    reveal_strlit("x26_0");
    reveal_strlit("x26_1");
    assert("0_2V5_0"@[2] != "0_15V_0"@[2] && "0_2V5_0"@[2] != "0_15V_1"@[2]);
    assert("0_2V5_1"@[2] != "0_15V_0"@[2] && "0_2V5_1"@[2] != "0_15V_1"@[2]);
    assert("x26_0"@.len() == 5 && "x26_1"@.len() == 5);
    assert("0_2V5_0"@.len() == 7 && "0_15V_0"@.len() == 7);
}

/// A file holds calibration data exactly where its name is some text followed by
/// `_calibration_data.csv`.
pub proof fn law_data_files_have_their_suffix(name: &str)
    ensures
        data_file_name(Some(name)) <==> exists|run: Seq<char>|
            name@ == #[trigger] (run + "_calibration_data.csv"@),
        !data_file_name(None),
{
    let end = "_calibration_data.csv"@;
    if data_file_name(Some(name)) {
        let run = name@.take(name@.len() - end.len());
        assert(name@ =~= run + end);
    }
    if exists|run: Seq<char>| name@ == #[trigger] (run + end) {
        let run = choose|run: Seq<char>| name@ == #[trigger] (run + end);
        assert(name@.skip(name@.len() - end.len()) =~= end);
    }
}

/// Calibration data is found at a path that is a data file, and in a folder with such
/// a file among those found. It is not found where nothing is, in another file and in
/// a folder without one.
pub proof fn law_data_is_discovered(
    path: Seq<char>,
    kind: PathKind,
    name: Option<&str>,
    found: Seq<FoundFile>,
)
    ensures
        discover_error(path, kind, name, found) is None <==> {
            ||| kind == PathKind::File && (name matches Some(s) && text::ends_with(
                s@,
                "_calibration_data.csv"@,
            ))
            ||| kind == PathKind::Folder && exists|i: int|
                0 <= i < found.len() && ((#[trigger] found[i]).name matches Some(s)
                    && text::ends_with(s@, "_calibration_data.csv"@))
        },
{
    lemma_found_data(found);
}

proof fn lemma_found_data(found: Seq<FoundFile>)
    ensures
        data_paths(found).len() > 0 <==> exists|i: int|
            0 <= i < found.len() && found_data_file(#[trigger] found[i]),
    decreases found.len(),
{
    reveal(Seq::filter);
    if found.len() > 0 {
        let front = found.drop_last();
        lemma_found_data(front);
        if exists|i: int| 0 <= i < found.len() && found_data_file(#[trigger] found[i]) {
            let i = choose|i: int| 0 <= i < found.len() && found_data_file(#[trigger] found[i]);
            if i < front.len() {
                assert(found_data_file(front[i]));
            }
        }
        if data_paths(found).len() > 0 {
            if found_data_file(found.last()) {
                assert(found_data_file(found[found.len() - 1]));
            } else {
                let i = choose|i: int|
                    0 <= i < front.len() && found_data_file(#[trigger] front[i]);
                assert(found_data_file(found[i]));
            }
        }
    }
}

} // verus!
