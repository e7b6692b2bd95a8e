use deimos::binary64::Real;
use deimos::peripheral::deimos_daq_rev7::calibration_7_0_0::channels::{
    all_calibration_channels, CalibrationChannel, CalibrationKind,
};
use deimos::peripheral::deimos_daq_rev7::calibration_7_0_0::records::{
    summary_record, FitSummary, RunErrors, RunFiles,
};
use deimos::peripheral::deimos_daq_rev7::calibration_7_0_0::statistics::{
    check_variation, extent, holds_within_calibrator_accuracy, largest_magnitude,
    r2_for_residuals, HoldDeviation,
};

fn num(x: f64) -> Real {
    Real::from_bits(x.to_bits())
}

fn nums(v: &[f64]) -> Vec<Real> {
    v.iter().copied().map(num).collect()
}

fn channel(kind: CalibrationKind) -> CalibrationChannel {
    all_calibration_channels()
        .into_iter()
        .find(|c| c.kind == kind)
        .unwrap()
}

#[test]
fn extents_leave_out_what_is_no_number() {
    let e = extent(&nums(&[2.5, f64::NAN, -1.0, 7.0]));
    assert_eq!((e.min, e.max), (num(-1.0), num(7.0)));
    let none = extent(&nums(&[f64::NAN]));
    assert_eq!((none.min, none.max), (num(f64::INFINITY), num(f64::NEG_INFINITY)));
    assert_eq!(largest_magnitude(&nums(&[1.0, -3.5, f64::NAN, 2.0])), num(3.5));
    assert_eq!(largest_magnitude(&[]), num(0.0));
}

#[test]
fn determination_without_variation_is_perfect_or_worthless() {
    assert_eq!(r2_for_residuals(num(0.5), num(2.0), num(0.75)), num(0.75));
    assert_eq!(r2_for_residuals(num(0.0), num(0.0), num(f64::NAN)), num(1.0));
    assert_eq!(r2_for_residuals(num(0.5), num(0.0), num(f64::NAN)), num(0.0));
}

#[test]
fn holds_agree_up_to_the_accuracy() {
    let hold = |deviation_v: f64| HoldDeviation {
        deviation_v: num(deviation_v),
        accuracy_v: num(0.002),
    };
    assert!(holds_within_calibrator_accuracy(&[hold(0.001), hold(0.002)]));
    assert!(!holds_within_calibrator_accuracy(&[hold(0.001), hold(0.0021)]));
    assert!(check_variation(num(0.01)).is_ok());
    assert_eq!(
        check_variation(num(f64::EPSILON)).unwrap_err(),
        "Thermocouple voltage fit requires variation in measured thermocouple voltage"
    );
}

#[test]
fn accuracy_of_voltages_depends_on_the_reading() {
    let voltage = channel(CalibrationKind::Voltage);
    let rtd = channel(CalibrationKind::Rtd);
    assert_eq!(voltage.error_accuracy_limit_at_reference(num(0.003)), num(0.003));
    assert_eq!(voltage.residual_accuracy_limit_at_reference(num(0.004)), num(0.004));
    assert_eq!(rtd.error_accuracy_limit_at_reference(num(0.003)), num(0.33));
    assert_eq!(rtd.residual_accuracy_limit_at_reference(num(0.003)), num(0.33));
    let current = channel(CalibrationKind::Current4To20);
    let accuracy_a = 0.020 * 0.015 / 100.0 + 2.0e-6;
    assert_eq!(current.error_accuracy_limit_at_reference(num(0.0)), num(accuracy_a * 1e3));
    assert_eq!(current.residual_accuracy_limit_at_reference(num(0.0)), num(accuracy_a * 1e6));
}

#[test]
fn summaries_describe_the_run() {
    let record = summary_record(
        channel(CalibrationKind::Current4To20),
        RunFiles {
            source: "a".to_owned(),
            samples: "b".to_owned(),
            plot_light: "c".to_owned(),
            plot_dark: "d".to_owned(),
            record: "e".to_owned(),
        },
        5,
        200,
        RunErrors {
            rmse: num(1.5),
            mean_error: num(0.5),
            max_abs_error: num(3.0),
        },
        FitSummary {
            coefficients: nums(&[0.0, 1.0]),
            r2: num(0.99),
            temperature_error_fit: None,
        },
    );
    assert_eq!(record.channel_label, "4-20 mA channel 0 (ain3)");
    assert_eq!(record.channel, "ain3");
    assert_eq!(record.signal_name, "p1_4_20_mA_0_A.y");
    assert_eq!(record.error_units, "uA");
    assert_eq!((record.detected_step_count, record.accepted_sample_count), (5, 200));
    assert_eq!(record.polynomial_coefficients, nums(&[0.0, 1.0]));
    assert_eq!(record.max_abs_error, num(3.0));
    assert_eq!(record.plot_dark_path, "d");
    assert_eq!(record.calibration_record_path, "e");
}
