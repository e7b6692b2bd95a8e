use deimos::binary64::Real;
use deimos::peripheral::analog_i_rev_2::{AnalogIRev2, CalcPlan, PWM_COUNT};
use deimos::peripheral::deimos_daq_rev7::board::{
    firmware_calibration, ConfiguringAnswer, CycleLimits, DeimosDaqRev7, LinearCal,
    LinearCalibration, OtherRejection, Snapshot, ADC_CHANNEL_COUNT,
};
use deimos::peripheral::registry;
use deimos::peripheral::registry::{
    kind, metric_names, metric_units, parse_binding, Acknowledgement, Binding, Model, ModelNumbers,
};

const BOARD: DeimosDaqRev7 = DeimosDaqRev7 { serial_number: 1 };

/// Reference voltage of the analog outputs.
const VREF: f64 = 2.5;

const LIMITS: CycleLimits = CycleLimits {
    min_period_ns: 100_000,
    max_period_ns: 200_000_000,
    min_rate_hz: 5,
    max_rate_hz: 10_000,
};

fn num(x: f64) -> Real {
    Real::from_bits(x.to_bits())
}

fn number(x: Real) -> f64 {
    f64::from_bits(x.to_bits())
}

/// Narrows host coefficients to those of the firmware.
fn narrowed(cals: &[LinearCal]) -> Vec<LinearCalibration> {
    cals.iter()
        .map(|cal| LinearCalibration {
            slope_bits: (number(cal.slope) as f32).to_bits(),
            offset_bits: (number(cal.offset) as f32).to_bits(),
        })
        .collect()
}

fn zero_snapshot() -> Snapshot {
    let zero = num(0.0);
    Snapshot {
        sample_time_ns: zero,
        module_bus_current_a: zero,
        module_bus_voltage_v: zero,
        board_temperature_k: zero,
        current_4_20_a: [zero; 4],
        rtd_resistance_ohm: [zero; 3],
        thermocouple_temperature_k: [zero; 2],
        voltage_v: [zero; 6],
        encoder: zero,
        pulse_counter: zero,
        frequency_meas: [zero; 2],
        gpio: 0,
    }
}

#[test]
fn deimos_daq_rev7_firmware_calibration_conversion_rejects_nonfinite_data() {
    let mut cals = [LinearCal::default(); ADC_CHANNEL_COUNT];
    assert!(firmware_calibration(narrowed(&cals), true).is_ok());
    cals[0].slope = num(f64::NAN);
    assert!(firmware_calibration(narrowed(&cals), true).is_err());
}

#[test]
fn mod_firmware_calibration_conversion_rejects_nonfinite_data() {
    let mut cals = [LinearCal::default(); ADC_CHANNEL_COUNT];
    cals[0].slope = num(f64::NAN);
    assert!(firmware_calibration(narrowed(&cals), true).is_err());
}

#[test]
fn configuring_validation_reports_supported_limits_before_transmission() {
    assert!(BOARD.validate_configuring(LIMITS.min_period_ns, LIMITS, None).is_ok());

    let error = BOARD.validate_configuring(LIMITS.min_period_ns - 1, LIMITS, None).unwrap_err();
    assert!(error.contains("shorter than the supported minimum"));
    assert!(error.contains(&LIMITS.min_period_ns.to_string()));

    let error = BOARD.validate_configuring(LIMITS.max_period_ns + 1, LIMITS, None).unwrap_err();
    assert!(error.contains("exceeds the supported maximum"));
    assert!(error.contains(&LIMITS.max_period_ns.to_string()));
}

#[test]
fn packet_parser_populates_the_named_sample_timestamp() {
    let sample_time_ns: u64 = 0x0012_3456_789a_bcde;
    let packet = Snapshot {
        sample_time_ns: num(sample_time_ns as f64),
        ..zero_snapshot()
    };
    let output_names = BOARD.output_names();
    let outputs = packet.outputs();
    assert_eq!(outputs.len(), output_names.len());
    let sample_time_index = output_names
        .iter()
        .position(|name| name == "sample_time_ns")
        .expect("sample timestamp output");
    assert_eq!(number(outputs[sample_time_index]), sample_time_ns as f64);
}

#[test]
fn operating_outputs_clamp_overshoot_and_safe_state_nan() {
    let inputs = [
        f64::NEG_INFINITY,
        f64::INFINITY,
        f64::NAN,
        0.5,
        0.0,
        f64::INFINITY,
        1_000.0,
        f64::NAN,
        f64::NAN,
        f64::INFINITY,
        f64::NAN,
        f64::INFINITY,
        -0.1,
        0.6,
    ]
    .map(num);
    let outputs = BOARD.normalized_outputs(&inputs, num(VREF));

    assert_eq!(outputs.pwm_duty_frac, [0.0, 1.0, 0.0, 0.5].map(num));
    assert_eq!(outputs.pwm_freq_hz, [1, u32::MAX, 1_000, 1_000_000]);
    assert_eq!(outputs.dac_v, [0.0, VREF].map(num));
    assert_eq!(outputs.gpio, 0b1010);
}

#[test]
fn packet_output_count_matches_names() {
    let sample_time_ns: u64 = 0x0012_3456_789a_bcde;
    let packet = Snapshot {
        sample_time_ns: num(sample_time_ns as f64),
        ..zero_snapshot()
    };
    let outputs = packet.outputs();
    assert_eq!(outputs.len(), 25);
    assert_eq!(number(outputs[0]), sample_time_ns as f64);
    assert_eq!(BOARD.output_names()[0], "sample_time_ns");
}

#[test]
fn commanded_frequencies_are_whole_and_positive() {
    let mut inputs = [num(0.0); 14];
    for (hz, expected) in [
        (-3.0, 1),
        (0.99, 1),
        (1.0, 1),
        (1.9999999, 1),
        (2.0, 2),
        (12_345.678, 12_345),
        (4_294_967_294.5, 4_294_967_294),
        (4_294_967_295.0, u32::MAX),
        (1e300, u32::MAX),
        (f64::NEG_INFINITY, 1),
    ] {
        inputs[4] = num(hz);
        let outputs = BOARD.normalized_outputs(&inputs, num(VREF));
        assert_eq!(outputs.pwm_freq_hz[0], expected, "{hz}");
        assert_eq!(num(hz).saturating_u32(), hz as u32, "{hz}");
    }
    assert_eq!(num(f64::NAN).saturating_u32(), 0);
    let longer = [num(1.0); 20];
    let outputs = BOARD.normalized_outputs(&longer, num(VREF));
    assert_eq!(outputs.pwm_duty_frac, [num(1.0); 4]);
    assert_eq!(outputs.gpio, 0b1111);
}

#[test]
fn input_and_output_names_follow_the_channels() {
    let inputs = BOARD.input_names();
    assert_eq!(inputs.len(), 14);
    assert_eq!(inputs[0], "pwm0_duty");
    assert_eq!(inputs[7], "pwm3_freq");
    assert_eq!(inputs[9], "dac1");
    assert_eq!(inputs[13], "do3");
    let outputs = BOARD.output_names();
    assert_eq!(outputs[1..4], ["bus_A", "bus_V", "board_temp_K"]);
    assert_eq!(outputs[7], "4_20_3_A");
    assert_eq!(outputs[10], "res_2_ohm");
    assert_eq!(outputs[12], "tc_1_K");
    assert_eq!(outputs[13..], [
        "2V5_0_V", "2V5_1_V", "15V_0_V", "15V_1_V", "35mV_0_V", "35mV_1_V", "encoder", "counter",
        "freq0", "freq1", "di0", "di1",
    ]);
}

#[test]
fn digital_inputs_are_the_lowest_bits() {
    let outputs = Snapshot {
        gpio: 0b1110,
        ..zero_snapshot()
    }
    .outputs();
    assert_eq!(outputs[23..], [0.0, 1.0].map(num));
}

#[test]
fn firmware_records_keep_the_coefficients_and_the_status() {
    let cals = vec![
        LinearCalibration {
            slope_bits: 1.5_f32.to_bits(),
            offset_bits: 0,
        };
        3
    ];
    let record = firmware_calibration(cals.clone(), true).unwrap();
    assert_eq!(record.firmware_calibrated, 1);
    assert_eq!(record.voltage_cals, cals);
    assert_eq!(firmware_calibration(cals, false).unwrap().firmware_calibrated, 0);
    let zero_slope = vec![LinearCalibration {
        slope_bits: (-0.0_f32).to_bits(),
        offset_bits: 0,
    }];
    assert_eq!(
        firmware_calibration(zero_slope, true).err().as_deref(),
        Some("Calibration contains an invalid or non-finite coefficient")
    );
}

#[test]
fn configuring_errors_are_told_apart() {
    let dt = LIMITS.min_period_ns;
    assert_eq!(
        BOARD.validate_configuring(1, LIMITS, None),
        Err(
            "dt_ns=1 is shorter than the supported minimum 100000 ns (maximum cycle rate 10000 Hz)"
                .to_owned()
        )
    );
    assert_eq!(
        BOARD.validate_configuring(dt, LIMITS, Some(OtherRejection::Response("Nak".to_owned()))),
        Err("Configuration was rejected with unexpected response Nak".to_owned())
    );
    assert_eq!(
        BOARD.validate_configuring(dt, LIMITS, Some(OtherRejection::Marker)),
        Err("Configuration has an invalid packet marker".to_owned())
    );
}

#[test]
fn configuring_answers_report_the_calibration() {
    let answer = |valid: bool, other: Option<&str>, firmware_calibrated: u8| ConfiguringAnswer {
        valid,
        other: other.map(str::to_owned),
        firmware_calibrated,
    };
    assert_eq!(BOARD.parse_configuring(8, 8, answer(true, None, 1)), Ok(Some(true)));
    assert_eq!(BOARD.parse_configuring(8, 8, answer(true, None, 0)), Ok(Some(false)));
    assert_eq!(
        BOARD.parse_configuring(7, 8, answer(true, None, 1)),
        Err("Invalid configuring response length".to_owned())
    );
    assert_eq!(
        BOARD.parse_configuring(8, 8, answer(false, None, 1)),
        Err("Invalid configuring response magic or calibration flag".to_owned())
    );
    assert_eq!(
        BOARD.parse_configuring(8, 8, answer(true, Some("NakDtTooSmall"), 1)),
        Err("NakDtTooSmall".to_owned())
    );
}

#[test]
fn rtd_calculations_read_their_resistance() {
    let calcs = BOARD.standard_calcs("p1");
    assert_eq!(calcs.len(), 3);
    assert_eq!(calcs[2].name, "p1_rtd_2");
    assert_eq!(calcs[2].input, "p1.res_2_ohm");
}

#[test]
fn analog_board_names_and_calculations() {
    let board = AnalogIRev2 { serial_number: 5 };
    assert_eq!(board.id(2).serial_number, 5);
    assert_eq!(BOARD.id(7).model_number, 7);
    let inputs = board.input_names();
    assert_eq!(inputs.len(), PWM_COUNT * 2);
    let outputs = board.output_names();
    assert!(outputs.len() >= 20);
    let mut commands = [num(0.25); 16];
    commands[1] = num(-1.0);
    commands[2] = num(7.0);
    commands[8] = num(1_000.9);
    commands[9] = num(f64::NAN);
    assert_eq!(
        board.duty_cycles(&commands)[..4],
        [0.25, 0.0, 1.0, 0.25].map(num)
    );
    assert_eq!(board.pwm_frequencies(&commands)[..3], [1_000, 0, 1]);
    let calcs = board.standard_calcs("p1");
    assert!(!calcs.is_empty());
    for (i, calc) in calcs.iter().enumerate() {
        assert!(calc.name.starts_with("p1_"), "{}", calc.name);
        assert!(calcs[..i].iter().all(|other| other.name != calc.name));
        if let CalcPlan::Affine { input, .. } = &calc.calc {
            assert!(input.contains("p1"), "{input}");
        }
    }
}

#[test]
fn metrics_are_named_and_have_no_units() {
    let names = metric_names();
    assert_eq!(names.len(), 8);
    assert_eq!(names[0], "cycle_time_ns");
    assert_eq!(names[7], "cycle_lag_count");
    assert_eq!(metric_units(), vec![None; 8]);
}

#[test]
fn kind_is_the_last_part_of_a_path() {
    assert_eq!(kind("deimos::peripheral::AnalogIRev2"), "AnalogIRev2");
    assert_eq!(kind("Plain"), "Plain");
}

#[test]
fn plugins_go_before_built_in_models() {
    let numbers = ModelNumbers {
        analog_i_rev_2: 1,
        analog_i_rev_3: 2,
        analog_i_rev_4: 3,
        deimos_daq_rev5: 4,
        deimos_daq_rev6: 5,
        deimos_daq_rev7: 6,
    };
    assert_eq!(parse_binding(6, None, numbers), Ok(Binding::BuiltIn(Model::DeimosDaqRev7)));
    assert_eq!(parse_binding(6, Some(&[9, 6]), numbers), Ok(Binding::Plugin));
    assert_eq!(
        parse_binding(2, Some(&[9]), numbers),
        Ok(Binding::BuiltIn(Model::AnalogIRev3))
    );
    assert_eq!(
        parse_binding(77, Some(&[9]), numbers),
        Err("Unrecognized model number 77".to_owned())
    );
    assert_eq!(numbers.find(4), Some(Model::DeimosDaqRev5));
    assert!(registry::parse_configuring(Acknowledgement::Ack).is_ok());
    assert_eq!(
        registry::parse_configuring(Acknowledgement::Nak("NakDtTooSmall".to_owned())),
        Err("NakDtTooSmall".to_owned())
    );
}
