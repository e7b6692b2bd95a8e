use deimos::binary64::Real;
use deimos::datetime::UtcTime;
use deimos::peripheral::deimos_daq_rev7::calibration_7_0_0::capture::{
    CalibrationRecord, CaptureReader, ChannelCapture, RecordStep,
};
use deimos::peripheral::deimos_daq_rev7::calibration_7_0_0::channels::{
    all_calibration_channels, channel_for_signal_name, CalibrationChannel, CalibrationKind,
};
use deimos::peripheral::deimos_daq_rev7::calibration_7_0_0::extract::{
    elapsed_ns, select_samples, Column, CorrectedTemperatures, ManualReferenceWindow,
    BOARD_COLD_JUNCTION_SIGNAL_NAME,
};
use deimos::peripheral::deimos_daq_rev7::calibration_7_0_0::plot::{
    plot_title, residual_trace_name, write_analysis_plot, PlotData, PlotTheme,
};
use deimos::peripheral::deimos_daq_rev7::calibration_7_0_0::procedure::{
    answer_prompt, data_file, discover_calibration_data, error_samples_file, first_prompt,
    instructions, is_calibration_data_file, is_skip, op_name_for_channel, op_name_with_datestamp,
    plot_file, procedure_plan, record_file, summary_dir_for_process_path, summary_file, FoundFile,
    PathKind, ProcedurePlan, Prompt, PromptDecision, PromptStep,
};
use deimos::peripheral::deimos_daq_rev7::calibration_7_0_0::records::{
    accuracy_band_xy, band_points, calibration_core, check_accepted, check_serial_number,
    cold_junction_inputs, controller_context, reference_steps, summary_error_unit,
    thermocouple_points, BandPoint, FitSummary,
};
use deimos::peripheral::deimos_daq_rev7::calibration_7_0_0::reports::{
    cold_junction_label, entered_voltage, error_samples_header, error_samples_line, fit_label,
    hold_prompt, nearest_step, recording_text, result_line, step_reference_values,
    temperature_reference, FitNumbers, TemperatureFitNumbers,
};
use deimos::peripheral::deimos_daq_rev7::calibration_7_0_0::segments::{
    accept_samples, accepted_error_samples, detect_step_segments, find_runs, hold_ranges,
    step_candidates, AcceptWindow,
};

fn num(x: f64) -> Real {
    Real::from_bits(x.to_bits())
}

fn nums(v: &[f64]) -> Vec<Real> {
    v.iter().copied().map(num).collect()
}

fn channel(kind: CalibrationKind) -> CalibrationChannel {
    all_calibration_channels()
        .into_iter()
        .find(|c| c.kind == kind)
        .unwrap()
}

fn record(signal: &str, time_s: f64, measured: f64) -> CalibrationRecord {
    CalibrationRecord {
        model: "deimos_daq_rev7".to_owned(),
        serial_number: 12,
        channel: "4-20".to_owned(),
        signal_name: signal.to_owned(),
        timestamp_ns: (time_s * 1e9) as i64,
        time_s: num(time_s),
        measured_a: num(measured),
        reference_a: None,
        calibrator_cold_junction_temperature_k: None,
        board_cold_junction_temperature_k: None,
        board_cold_junction_offset_k: None,
        thermocouple_voltage_v: None,
    }
}

/// Reads records as the processing of a data file does; `correct` computes a
/// corrected thermocouple temperature.
fn read_records(
    records: &[CalibrationRecord],
    correct: impl Fn(Real, Real, Real) -> Real,
) -> Result<ChannelCapture, String> {
    let name = "run_calibration_data.csv";
    let mut reader = CaptureReader::open("/d/run_calibration_data.csv", Some("/d"), Some(name), records)?;
    for record in records {
        match reader.examine(record)? {
            RecordStep::Skip => {}
            RecordStep::Measured(x) => reader.store(x),
            RecordStep::Corrected {
                voltage_v,
                board_temperature_k,
                offset_k,
            } => reader.store(correct(voltage_v, board_temperature_k, offset_k)),
        }
    }
    reader.finish()
}

fn current_capture(times: &[f64], measured: &[f64]) -> ChannelCapture {
    let signal = channel(CalibrationKind::Current4To20).signal_name;
    let records: Vec<CalibrationRecord> = times
        .iter()
        .zip(measured)
        .map(|(t, m)| record(signal, *t, *m))
        .collect();
    read_records(&records, |v, _, _| v).unwrap()
}

#[test]
fn channels_are_found_by_their_signal_names() {
    let channels = all_calibration_channels();
    for (i, channel) in channels.iter().enumerate() {
        let found = channel_for_signal_name(channel.signal_name).unwrap();
        assert_eq!(found.slug, channel.slug);
        for other in &channels[..i] {
            assert_ne!(other.signal_name, channel.signal_name);
        }
    }
    assert!(channel_for_signal_name("nothing").is_none());
    assert_eq!(channels[0].label, "4-20 mA channel 0 (ain3)");
}

#[test]
fn capture_skips_samples_that_go_back_in_time_or_are_not_finite() {
    let capture = current_capture(
        &[0.0, 1.0, 0.5, 2.0, f64::NAN, 3.0],
        &[0.1, 0.2, 0.3, f64::INFINITY, 0.5, 0.6],
    );
    assert_eq!(capture.times_s, nums(&[0.0, 1.0, 3.0]));
    assert_eq!(capture.measured_a, nums(&[0.1, 0.2, 0.6]));
    assert_eq!(capture.op_name, "run");
    assert_eq!(capture.op_dir, "/d");
    assert_eq!(capture.serial_number, 12);
}

#[test]
fn captured_rows_read_back() {
    let capture = current_capture(&[0.0, 1.0, 2.0], &[0.1, 0.2, 0.3]);
    let records = capture.calibration_records();
    let again = read_records(&records, |v, _, _| v).unwrap();
    assert_eq!(again.timestamps_ns, capture.timestamps_ns);
    assert_eq!(again.times_s, capture.times_s);
    assert_eq!(again.measured_a, capture.measured_a);
    assert_eq!(again.reference_a, capture.reference_a);
}

#[test]
fn thermocouple_records_are_corrected() {
    let channel = channel(CalibrationKind::Thermocouple);
    let mut records: Vec<CalibrationRecord> = (0..3)
        .map(|i| CalibrationRecord {
            calibrator_cold_junction_temperature_k: Some(num(295.0)),
            board_cold_junction_temperature_k: Some(num(300.0 + i as f64)),
            board_cold_junction_offset_k: Some(num(-5.0)),
            thermocouple_voltage_v: Some(num(0.01)),
            ..record(channel.signal_name, i as f64, 1.0)
        })
        .collect();
    let capture = read_records(&records, |_, board, _| board).unwrap();
    assert_eq!(capture.measured_a, nums(&[300.0, 301.0, 302.0]));
    assert_eq!(capture.board_cold_junction_temperature_k, capture.measured_a);
    assert_eq!(capture.board_cold_junction_offset_k, Some(num(-5.0)));
    let inputs = cold_junction_inputs(&capture).unwrap();
    assert_eq!(inputs.calibrator_temperature_k, num(295.0));
    assert_eq!(inputs.offset_k, num(-5.0));
    records[1].thermocouple_voltage_v = None;
    let error = read_records(&records, |_, board, _| board).unwrap_err();
    assert!(error.contains("is missing thermocouple_voltage_v for thermocouple signal"));
    let error = cold_junction_inputs(&current_capture(&[0.0, 1.0], &[0.0, 0.0])).err().unwrap();
    assert!(error.contains("is missing calibrator cold-junction temperature"));
}

#[test]
fn foreign_records_are_refused() {
    let signal = channel(CalibrationKind::Current4To20).signal_name;
    let good = || record(signal, 0.0, 0.1);
    let error = |records: &[CalibrationRecord]| read_records(records, |v, _, _| v).unwrap_err();
    assert!(error(&[]).contains("No calibration records found"));
    assert!(error(&[record("odd", 0.0, 0.1)]).contains("Unknown calibration signal 'odd'"));
    let mut other = record(signal, 1.0, 0.1);
    other.model = "rev6".to_owned();
    assert!(error(&[good(), other]).contains("has model 'rev6'"));
    let mut other = record(signal, 1.0, 0.1);
    other.serial_number = 13;
    assert!(error(&[good(), other]).contains("mixed serial numbers: 12 and 13"));
    let other = record("p1_4_20_mA_1_A.y", 1.0, 0.1);
    assert!(error(&[good(), other]).contains("contains mixed signals"));
    assert!(error(&[good()]).contains("Need at least two finite monotonic samples"));
    assert!(
        CaptureReader::open("x.csv", None, Some("x.csv"), &[good()]).is_err(),
        "a file without a folder has no place for its results"
    );
}

#[test]
fn samples_are_selected_with_their_references() {
    let current = channel(CalibrationKind::Current4To20);
    let columns = [Column {
        name: current.signal_name.to_owned(),
        values: nums(&[0.1, f64::NAN, 0.3, 0.4]),
    }];
    let windows = [
        ManualReferenceWindow {
            reference_a: num(5.0),
            start_time_s: num(0.0),
            stop_time_s: num(1.0),
        },
        ManualReferenceWindow {
            reference_a: num(6.0),
            start_time_s: num(1.0),
            stop_time_s: num(2.0),
        },
    ];
    let times = nums(&[0.0, 1.0, 2.0, 1.5]);
    let selected = select_samples(current, &[10, 20, 30, 40], &times, &columns, &windows).unwrap();
    assert_eq!(selected.timestamps_ns, [10, 30]);
    assert_eq!(selected.times_s, nums(&[0.0, 2.0]));
    assert_eq!(selected.measured_a, nums(&[0.1, 0.3]));
    assert_eq!(selected.reference_a, [Some(num(5.0)), Some(num(6.0))]);
    let capture = selected
        .into_capture(12, current, "run".to_owned(), "/d".to_owned(), None, None)
        .unwrap();
    assert_eq!(capture.measured_a, nums(&[0.1, 0.3]));
    assert_eq!(elapsed_ns(&[10, 30, 25]), [0, 20, 15]);
}

#[test]
fn missing_signals_are_listed() {
    let thermocouple = channel(CalibrationKind::Thermocouple);
    let columns = [
        Column {
            name: "z".to_owned(),
            values: vec![],
        },
        Column {
            name: "a".to_owned(),
            values: vec![],
        },
    ];
    assert_eq!(
        select_samples(thermocouple, &[], &[], &columns, &[]).unwrap_err(),
        format!(
            "Signal '{}' was not found in dataframe columns: [\"a\", \"z\"]",
            thermocouple.signal_name
        )
    );
    let current = channel(CalibrationKind::Current4To20);
    let columns = [Column {
        name: current.signal_name.to_owned(),
        values: vec![],
    }];
    assert_eq!(
        select_samples(current, &[], &[], &columns, &[]).unwrap_err(),
        format!("No samples were captured for {}", current.label)
    );
}

#[test]
fn thermocouple_capture_takes_corrected_temperatures() {
    let thermocouple = channel(CalibrationKind::Thermocouple);
    let column = |name: &str, values: &[f64]| Column {
        name: name.to_owned(),
        values: nums(values),
    };
    let columns = [
        column(thermocouple.signal_name, &[300.0, 301.0]),
        column(thermocouple.tc_voltage_signal_name().unwrap(), &[0.01, 0.02]),
        column(BOARD_COLD_JUNCTION_SIGNAL_NAME, &[296.0, 297.0]),
    ];
    let times = nums(&[0.0, 1.0]);
    let selected = select_samples(thermocouple, &[0, 1], &times, &columns, &[]).unwrap();
    assert_eq!(selected.thermocouple_voltage_v, nums(&[0.01, 0.02]));
    let capture = selected
        .into_capture(
            12,
            thermocouple,
            "run".to_owned(),
            "/d".to_owned(),
            Some(num(295.0)),
            Some(CorrectedTemperatures {
                offset_k: num(-1.5),
                measured_a: nums(&[310.0, 311.0]),
            }),
        )
        .unwrap();
    assert_eq!(capture.measured_a, nums(&[310.0, 311.0]));
    assert_eq!(capture.board_cold_junction_offset_k, Some(num(-1.5)));
}

#[test]
fn holds_are_found_and_their_middle_is_accepted() {
    let times = nums(&[0.0, 1.0, 2.0, 3.0, 4.0, 5.0, 6.0]);
    let a = Some(num(0.005));
    let b = Some(num(0.01));
    let references = [a, a, a, None, b, b, a];
    let runs = find_runs(&references);
    assert_eq!(runs.len(), 3);
    assert_eq!((runs[1].start_idx, runs[1].end_idx), (4, 6));
    let candidates = step_candidates(&times, &references);
    assert_eq!(candidates.len(), 2);
    assert_eq!(candidates[0].stop_time_s, num(2.0));
    let window = AcceptWindow {
        start_time_s: num(0.5),
        stop_time_s: num(1.5),
    };
    let segment = accept_samples(&times, candidates[0], window).unwrap();
    assert_eq!((segment.accept_start_idx, segment.accept_end_idx), (1, 2));
    let current = channel(CalibrationKind::Current4To20);
    let segments =
        detect_step_segments(current, &times, &candidates, &[Some(window), None]).unwrap();
    assert_eq!(segments.len(), 1);
    assert!(detect_step_segments(current, &times, &candidates, &[None, None]).is_err());

    let capture = current_capture(
        &[0.0, 1.0, 2.0, 3.0, 4.0, 5.0, 6.0],
        &[0.0, 0.1, 0.2, 0.3, 0.4, 0.5, 0.6],
    );
    let samples = accepted_error_samples(&capture, &segments);
    assert_eq!(samples.len(), 1);
    assert_eq!(samples[0].measured_a, num(0.1));
    assert_eq!(samples[0].reference_a, num(0.005));
    assert!(check_accepted(current, &samples).is_ok());
    assert_eq!(
        check_accepted(current, &[]),
        Err(format!(
            "No accepted middle-half step samples found for {}",
            current.label
        ))
    );
    let ranges = hold_ranges(&segments, 1).unwrap();
    assert_eq!((ranges[0].start, ranges[0].end), (0, 1));
    assert!(hold_ranges(&segments, 2).is_none());
    let line = reference_steps(&segments, &[num(5.0)]);
    assert_eq!(line.times_s.len(), line.values.len());
    assert!(thermocouple_points(&samples).is_err());
}

#[test]
fn accuracy_band_is_closed_and_mirrored() {
    let upper = [
        BandPoint {
            reference: num(1.0),
            limit: num(0.5),
        },
        BandPoint {
            reference: num(2.0),
            limit: num(0.75),
        },
    ];
    let outline = accuracy_band_xy(&upper);
    assert_eq!(outline.x, nums(&[1.0, 2.0, 2.0, 1.0, 1.0]));
    assert_eq!(outline.y, nums(&[0.5, 0.75, -0.75, -0.5, 0.5]));
    assert!(band_points(num(0.0), num(1.0)) > 1);
}

#[test]
fn records_describe_the_fit() {
    let capture = current_capture(&[0.0, 1.0], &[0.0, 0.1]);
    let core = calibration_core(
        &capture,
        "2026-01-02T030405Z".to_owned(),
        FitSummary {
            coefficients: nums(&[0.0, 1.0]),
            r2: num(1.0),
            temperature_error_fit: None,
        },
        2,
        1,
    );
    assert_eq!(core.model, "deimos_daq_rev7");
    assert_eq!(core.polynomial_order, 1);
    assert_eq!(core.reference_resistor_ohm, Some(num(75.0)));
    assert_eq!(core.rtd_reference_current_a, None);
    assert_eq!(core.accepted_sample_count, 2);
    assert_eq!(core.detected_step_count, 1);
    assert_eq!(
        check_serial_number("x.csv", 1, 2),
        Err("x.csv has serial number 1, expected 2".to_owned())
    );
    assert_eq!(summary_error_unit(CalibrationKind::Current4To20), ("uA", 6));
    let context = controller_context("run".to_owned(), "/d".to_owned(), capture.channel);
    assert_eq!(context.timeout_s, capture.channel.capture_seconds());
}

#[test]
fn nearest_reference_is_the_first_of_the_nearest() {
    assert_eq!(
        step_reference_values(),
        nums(&[0.0, 0.005, 0.010, 0.015, 0.020])
    );
    assert_eq!(nearest_step(&nums(&[0.01, 0.0004, 0.0004])), Some(1));
    assert_eq!(nearest_step(&nums(&[0.01, 0.02])), None);
    let rtd = CalibrationKind::Rtd;
    assert_eq!(
        temperature_reference(rtd, num(301.0), num(300.0), num(1.0)),
        Some(num(300.0))
    );
    assert_eq!(temperature_reference(rtd, num(301.0), num(300.0), num(6.0)), None);
    assert_eq!(temperature_reference(rtd, num(1.0), num(1.0), num(0.0)), None);
    assert_eq!(
        temperature_reference(CalibrationKind::Voltage, num(300.0), num(300.0), num(0.0)),
        None
    );
}

#[test]
fn prompts_are_answered() {
    assert_eq!(procedure_plan(true, false), Ok(ProcedurePlan::Collect));
    assert_eq!(procedure_plan(false, true), Ok(ProcedurePlan::Process));
    assert_eq!(procedure_plan(true, true), Ok(ProcedurePlan::CollectAndProcess));
    assert!(procedure_plan(false, false).is_err());
    assert!(is_skip(" S\n"));
    assert!(!is_skip("skip"));
    let thermocouple = channel(CalibrationKind::Thermocouple);
    assert_eq!(first_prompt(thermocouple), Prompt::ColdJunction);
    let asked = answer_prompt(Prompt::ColdJunction, "22.5\n", Ok(num(22.5))).unwrap();
    let start = Prompt::Start {
        calibrator_cold_junction_temperature_c: Some(num(22.5)),
    };
    assert_eq!(asked, PromptStep::Ask(start));
    assert_eq!(
        answer_prompt(start, "\n", Err("empty".to_owned())),
        Ok(PromptStep::Decided(PromptDecision::Start {
            calibrator_cold_junction_temperature_c: Some(num(22.5)),
        }))
    );
    assert_eq!(
        answer_prompt(start, "s", Err("x".to_owned())),
        Ok(PromptStep::Decided(PromptDecision::Skip))
    );
    assert_eq!(
        answer_prompt(Prompt::ColdJunction, " hot ", Err("invalid float literal".to_owned())),
        Err(
            "Expected VA710 cold-junction temperature in degC or 's' to skip, got 'hot': \
             invalid float literal"
                .to_owned()
        )
    );
    assert!(instructions(thermocouple, None).unwrap().contains("VA710"));
    let voltage = channel(CalibrationKind::Voltage);
    assert!(instructions(voltage, None).is_err());
    assert!(instructions(voltage, Some(("0", "2.5"))).unwrap().contains("Fluke 707"));
    assert_eq!(
        voltage.voltage_reference_range_v(),
        Some((num(0.0), num(2.5)))
    );
}

#[test]
fn data_files_are_discovered() {
    assert!(is_calibration_data_file(Some("a_calibration_data.csv")));
    assert!(!is_calibration_data_file(Some("a.csv")));
    assert!(!is_calibration_data_file(None));
    let found = |path: &str, name: &str| FoundFile {
        path: path.to_owned(),
        name: Some(name.to_owned()),
    };
    let files = [
        found("/d/b_calibration_data.csv", "b_calibration_data.csv"),
        found("/d/notes.txt", "notes.txt"),
        found("/d/a_calibration_data.csv", "a_calibration_data.csv"),
    ];
    assert_eq!(
        discover_calibration_data("/d", PathKind::Folder, None, &files).unwrap(),
        ["/d/a_calibration_data.csv", "/d/b_calibration_data.csv"]
    );
    assert!(discover_calibration_data("/d", PathKind::Folder, None, &files[1..2]).is_err());
    let deep = [
        found("/d/a-b/x_calibration_data.csv", "x_calibration_data.csv"),
        found("/d/a/x_calibration_data.csv", "x_calibration_data.csv"),
    ];
    assert_eq!(
        discover_calibration_data("/d", PathKind::Folder, None, &deep).unwrap(),
        ["/d/a/x_calibration_data.csv", "/d/a-b/x_calibration_data.csv"]
    );
    assert_eq!(
        discover_calibration_data("/x", PathKind::Missing, None, &[]),
        Err("/x does not exist".to_owned())
    );
    let name = "a_calibration_data.csv";
    assert_eq!(
        discover_calibration_data("/d/a_calibration_data.csv", PathKind::File, Some(name), &[])
            .unwrap(),
        ["/d/a_calibration_data.csv"]
    );
    assert_eq!(
        summary_dir_for_process_path("/d/a.csv", PathKind::File, Some("/d")),
        Ok("/d".to_owned())
    );
    assert_eq!(
        summary_dir_for_process_path("/d", PathKind::Folder, Some("/")),
        Ok("/d".to_owned())
    );
    assert!(summary_dir_for_process_path("/d/a.csv", PathKind::File, None).is_err());
}

#[test]
fn files_of_a_run_are_named_after_it() {
    let current = channel(CalibrationKind::Current4To20);
    let name = op_name_with_datestamp(12, current, "2026-01-02T030405Z");
    assert_eq!(name, "deimos_daq_rev7_sn12_4_20_mA_0_2026-01-02T030405Z");
    let epoch = UtcTime { secs: 0, nanos: 0 };
    assert_eq!(
        op_name_for_channel(12, current, epoch),
        "deimos_daq_rev7_sn12_4_20_mA_0_1970-01-01T000000Z"
    );
    assert_eq!(data_file("r"), "r_calibration_data.csv");
    assert_eq!(error_samples_file("r"), "r_error_samples.csv");
    assert_eq!(record_file("r"), "r_calibration.json");
    assert_eq!(plot_file("r", PlotTheme::Dark), "r_plots_dark.html");
    assert_eq!(summary_file("d"), "rev7_calibration_summary_d.json");
}

#[test]
fn reports_are_worded() {
    let current = channel(CalibrationKind::Current4To20);
    let fit = FitNumbers {
        constant: "1".to_owned(),
        slope: "2".to_owned(),
        r2: "3".to_owned(),
    };
    let label = fit_label(current, &fit, None);
    assert!(label.ends_with(": expected = 1 + 2 * measured, R^2 = 3"));
    let temperature = TemperatureFitNumbers {
        constant: "a".to_owned(),
        slope: "b".to_owned(),
        center: "c".to_owned(),
        scale: "d".to_owned(),
        r2: "e".to_owned(),
    };
    assert!(fit_label(current, &fit, Some(&temperature)).starts_with(
        "Temperature error fit: error_K = a + b * ((T_K - c) / d), R^2 = e; "
    ));
    assert_eq!(
        cold_junction_label(CalibrationKind::Thermocouple, "1", "2", "3").as_deref(),
        Some(
            "Cold junction: calibrator = 1 K, temperature offset = 2 K, \
             RTD voltage offset = 3 V"
        )
    );
    assert_eq!(cold_junction_label(CalibrationKind::Rtd, "1", "2", "3"), None);
    assert!(hold_prompt(0, "x", "1.5").starts_with("Hold 1/4 for x: "));
    assert_eq!(recording_text(3, "5", "1.5"), "Recording hold 4/4 for 5 s at reference 1.5 V.");
    assert_eq!(entered_voltage("x", "1.5", Ok(num(1.5))), Ok(num(1.5)));
    assert_eq!(
        entered_voltage("x", " q\n", Err("bad".to_owned())),
        Err("Expected Fluke voltage in V for x, got 'q': bad".to_owned())
    );
    assert_eq!(error_samples_header(), "time_s,reference_a,measured_a,error_a\n");
    assert_eq!(error_samples_line("1", "2", "3", "4"), "1,2,3,4\n");
    assert_eq!(
        result_line(current, 5, 100, "1", "2", "3", "uA"),
        format!(
            "{}: steps=5 accepted_samples=100 rmse=1 uA mean_error=2 uA max_abs_error=3 uA",
            current.label
        )
    );
}

#[test]
fn plots_are_self_contained_pages() {
    let current = channel(CalibrationKind::Current4To20);
    let data = PlotData {
        raw_time_s: "[0]".to_owned(),
        raw_measured_ma: "[1]".to_owned(),
        accepted_reference_display: "[2]".to_owned(),
        reference_step_time_s: "[3]".to_owned(),
        reference_step_ma: "[4]".to_owned(),
        error_plot_y: "[5]".to_owned(),
        error_accuracy_x: "[6]".to_owned(),
        error_accuracy_y: "[7]".to_owned(),
        error_y_axis_range: "[8]".to_owned(),
        accepted_shapes: "[9]".to_owned(),
        fit_measured_x: "[10]".to_owned(),
        fit_expected_y: "[11]".to_owned(),
        fit_line_x: "[12]".to_owned(),
        fit_line_y: "[13]".to_owned(),
        residual_accuracy_x: "[14]".to_owned(),
        residual_accuracy_y: "[15]".to_owned(),
        residual_y_axis_range: "[16]".to_owned(),
        fit_residual_reference: "[17]".to_owned(),
        fit_residual_y: "[18]".to_owned(),
    };
    let page = write_analysis_plot(12, current, PlotTheme::Light, "R < 1 & \"q\"", None, &data);
    assert!(page.starts_with("<!doctype html>\n<html lang=\"en\">"));
    assert!(page.ends_with("</html>\n"));
    assert!(page.contains("R &lt; 1 &amp; &quot;q&quot;"));
    assert!(page.contains("const voltageFitLabel = \"R < 1 & \\\"q\\\"\";"));
    assert!(page.contains("const rawTimeS = [0];"));
    assert!(page.contains("const fitResidualY = [18];"));
    let series = [
        "const rawTimeS = [0];",
        "const rawMeasuredMA = [1];",
        "const acceptedReference = [2];",
        "const referenceStepTimeS = [3];",
        "const referenceStepMA = [4];",
        "const errorPlotY = [5];",
        "const errorAccuracyX = [6];",
        "const errorAccuracyY = [7];",
        "const errorYAxisRange = [8];",
        "const acceptedShapes = [9];",
        "const fitMeasuredX = [10];",
        "const fitExpectedY = [11];",
        "const fitLineX = [12];",
        "const fitLineY = [13];",
        "const residualAccuracyX = [14];",
        "const residualAccuracyY = [15];",
        "const residualYAxisRange = [16];",
        "const fitResidualReference = [17];",
        "const fitResidualY = [18];",
        "const voltageFitLabel = \"R < 1 & \\\"q\\\"\";",
    ];
    let lines: Vec<&str> = page.lines().collect();
    let script = lines.iter().position(|line| *line == "<script>").unwrap();
    assert_eq!(&lines[script + 1..script + 1 + series.len()], &series[..]);
    for (i, name) in [
        "textColor",
        "traceColor",
        "plotBackground",
        "gridColor",
        "boxFillColor",
        "accuracyFillColor",
    ]
    .iter()
    .enumerate()
    {
        let line = lines[script + 1 + series.len() + i];
        assert!(line.starts_with(&format!("const {name} = \"")), "{line}");
        assert!(line.ends_with("\";"), "{line}");
    }
    assert_eq!(lines[script + 1 + series.len() + 6], "");
    assert_eq!(lines[script + 1 + series.len() + 7], "const baseLayout = {");
    assert!(lines.iter().all(|line| !line.starts_with("pub ")));
    assert!(page.contains(&plot_title(12, current)));
    assert!(page.contains(residual_trace_name(current.kind)));
    let noted = write_analysis_plot(12, current, PlotTheme::Dark, "x", Some("cold <j>"), &data);
    assert!(noted.contains("cold &lt;j&gt;"));
    assert_ne!(PlotTheme::Dark.page_background(), PlotTheme::Light.page_background());
}
