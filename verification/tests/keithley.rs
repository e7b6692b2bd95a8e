use deimos::binary64::Real;
use deimos::peripheral::instruments::dmm_worker::{
    DmmAction, DmmOutcome, DmmPhase, DmmReply, DmmWorker,
};
use deimos::peripheral::instruments::keithley_dmm6500::{
    parse_measurement, process_request, setup_dmm, startup_error, worker_error, write_response,
    Config, Function, KeithleyDmm6500, KeithleyDmm6500Driver, StartupPhase, State, INPUT_SIZE,
    MAX_EXACT_INTEGER, MODEL_NUMBER,
};
use deimos::peripheral::instruments::packets::{
    decode_values, encode_request, encode_response, has_nan, is_valid_response, request_id,
};
use deimos::span::Span;

/// Bytes of the metrics in front of the values of a response.
const METRICS_SIZE: usize = 64;

fn num(x: f64) -> Real {
    Real::from_bits(x.to_bits())
}

fn number(x: Real) -> f64 {
    f64::from_bits(x.to_bits())
}

fn scpi_number(x: f64) -> String {
    format!("{x:.17e}")
}

fn measurement(response: &str) -> Result<Real, String> {
    let read = response
        .trim()
        .parse::<f64>()
        .map(num)
        .map_err(|error| error.to_string());
    parse_measurement(response, read)
}

/// The commands with which a configuration is set up.
fn setup_commands(config: &Config) -> Vec<String> {
    let range = match config.function {
        Function::DcVoltage { range_v: range } => range,
        Function::FourWireResistance { range_ohm: range, .. } => range,
    };
    let range = range.map(|x| scpi_number(number(x))).unwrap_or_default();
    setup_dmm(
        config.function,
        config.autozero,
        &range,
        &scpi_number(number(config.nplc)),
    )
}

#[test]
fn packet_shape_and_names_are_stable() {
    let voltage = KeithleyDmm6500::new(9);
    let resistance = KeithleyDmm6500::with_function(
        9,
        Function::FourWireResistance {
            range_ohm: None,
            offset_compensation: true,
        },
    );
    assert!(voltage.input_names().is_empty());
    assert_eq!(
        voltage.output_names(),
        ["voltage_v", "sample_sequence", "sample_age_s"]
    );
    assert_eq!(
        resistance.output_names(),
        ["resistance_ohm", "sample_sequence", "sample_age_s"]
    );
    assert_eq!(voltage.operating_roundtrip_input_size(), INPUT_SIZE);
    assert_eq!(
        voltage.operating_roundtrip_output_size(METRICS_SIZE),
        METRICS_SIZE + 24
    );
    assert_eq!(
        voltage.operating_roundtrip_output_size(METRICS_SIZE),
        resistance.operating_roundtrip_output_size(METRICS_SIZE)
    );
    let restored = KeithleyDmm6500 {
        serial_number: resistance.serial_number,
        function: resistance.function,
    };
    assert_eq!(restored.output_names()[0], "resistance_ohm");
}

#[test]
fn thread_channel_name_is_derived_from_model_and_serial() {
    let config = Config::new("localhost", 0x2a);
    let driver = KeithleyDmm6500Driver::new(config).unwrap();
    assert_eq!(driver.channel_name(), "instrument-dmm6500-000000000000002a");
}

#[test]
fn configuration_rejects_invalid_measurement_settings() {
    let mut config = Config::new("localhost", 1);
    config.nplc = num(f64::NAN);
    assert!(config.validate().is_err());
    config.nplc = num(1.0);
    config.function = Function::DcVoltage {
        range_v: Some(num(0.0)),
    };
    assert!(config.validate().is_err());
    config.function = Function::FourWireResistance {
        range_ohm: Some(num(f64::INFINITY)),
        offset_compensation: true,
    };
    assert!(config.validate().is_err());
}

#[test]
fn measurement_parser_rejects_invalid_and_overrange_values() {
    assert_eq!(number(measurement("-1.25e-3\n").unwrap()), -1.25e-3);
    assert!(measurement("not-a-number").is_err());
    assert!(measurement("NaN").is_err());
    assert!(measurement("inf").is_err());
    assert!(measurement("9.9e37").is_err());
}

/// An instrument that answers queries; returns the commands it was sent.
fn run_worker(
    driver: &KeithleyDmm6500Driver,
    state: &mut State,
    samples: u64,
    mut reading: impl FnMut() -> String,
) -> Vec<String> {
    let mut worker = DmmWorker::new(setup_commands(&driver.config));
    let mut commands = Vec::new();
    let mut now_ns = 0;
    let mut ready = false;
    loop {
        let action = worker.next(state.sample_sequence >= samples);
        let result: Result<String, String> = match action {
            DmmAction::Stop => break,
            DmmAction::Connect => Ok(String::new()),
            DmmAction::Command(text) => {
                commands.push(text);
                Ok(String::new())
            }
            DmmAction::Query(text) => {
                let response = match text.as_str() {
                    "*IDN?" => "KEITHLEY INSTRUMENTS,DMM6500,TEST,1.0".to_owned(),
                    ":READ?" => reading(),
                    _ => panic!("{text}"),
                };
                commands.push(text);
                Ok(response)
            }
        };
        now_ns += 1_000_000;
        let number = match &result {
            Ok(response) => response
                .trim()
                .parse::<f64>()
                .map(num)
                .map_err(|error| error.to_string()),
            Err(error) => Err(error.to_string()),
        };
        match worker.record(&driver.config, state, DmmReply { result, number }, now_ns) {
            DmmOutcome::Continue => {}
            DmmOutcome::Ready => ready = true,
            DmmOutcome::Failed { error, .. } => panic!("{error}"),
        }
    }
    assert!(ready);
    assert!(state.sample(now_ns).unwrap().age_ns < 1_000_000_000);
    commands
}

#[test]
fn worker_configures_dc_voltage_and_publishes_fresh_samples() {
    let mut config = Config::new("localhost", 2);
    config.function = Function::DcVoltage {
        range_v: Some(num(10.0)),
    };
    let driver = KeithleyDmm6500Driver::new(config).unwrap();
    let mut state = State::new(0);
    let mut sample = 1.0;
    let commands = run_worker(&driver, &mut state, 3, || {
        let response = format!("{sample}");
        sample += 0.25;
        response
    });
    assert!(state.sample_sequence >= 3);
    assert!(number(state.value) >= 1.5);
    assert_eq!(
        state.status.identity().as_deref(),
        Some("KEITHLEY INSTRUMENTS,DMM6500,TEST,1.0")
    );

    assert!(commands
        .iter()
        .any(|command| command == ":SENSe:FUNCtion \"VOLTage\""));
    assert!(commands
        .iter()
        .any(|command| command == ":SENSe:VOLTage:RANGe 1.00000000000000000e1"));
    assert!(
        commands
            .iter()
            .filter(|command| *command == ":READ?")
            .count()
            >= 3
    );
}

#[test]
fn worker_configures_four_wire_resistance_and_offset_compensation() {
    let mut config = Config::new("localhost", 3);
    config.function = Function::FourWireResistance {
        range_ohm: None,
        offset_compensation: true,
    };
    let driver = KeithleyDmm6500Driver::new(config).unwrap();
    assert_eq!(driver.peripheral().output_names()[0], "resistance_ohm");
    let mut state = State::new(0);
    let commands = run_worker(&driver, &mut state, 2, || "1000.25".to_owned());
    assert_eq!(number(state.value), 1000.25);

    for expected in [
        ":SENS:FUNC \"FRES\"",
        ":SENS:FRES:RANG:AUTO ON",
        ":SENS:FRES:OCOM ON",
        ":SENS:FRES:AZER ON",
        ":SENS:FRES:NPLC 1.00000000000000000e0",
    ] {
        assert!(commands.iter().any(|command| command == expected));
    }
}

#[test]
fn startup_is_reported_behind_the_first_measurement_only() {
    let config = Config::new("localhost", 1);
    let reply = |response: &str| DmmReply {
        result: Ok(response.to_owned()),
        number: response.parse::<f64>().map(num).map_err(|e| e.to_string()),
    };
    let mut state = State::new(0);
    let mut worker = DmmWorker::new(vec!["A".to_owned(), "B".to_owned()]);
    for (phase, response) in [
        (DmmPhase::Connecting, ""),
        (DmmPhase::Identifying, "keithley dmm6500"),
        (DmmPhase::SettingUp { next: 0 }, ""),
        (DmmPhase::SettingUp { next: 1 }, ""),
    ] {
        assert_eq!(worker.phase, phase);
        let outcome = worker.record(&config, &mut state, reply(response), 1);
        assert!(matches!(outcome, DmmOutcome::Continue));
        assert_eq!(state.status.identity(), None);
    }
    assert!(matches!(worker.next(true), DmmAction::Query(text) if text == ":READ?"));
    let outcome = worker.record(&config, &mut state, reply("1.5"), 2);
    assert!(matches!(outcome, DmmOutcome::Ready));
    assert_eq!(state.status.identity().as_deref(), Some("keithley dmm6500"));
    assert!(matches!(worker.next(true), DmmAction::Stop));
    match worker.record(&config, &mut state, reply("NaN"), 3) {
        DmmOutcome::Failed { startup, error } => {
            assert_eq!(startup, None);
            assert_eq!(error, "NaN measurement response `NaN`");
        }
        other => panic!("{other:?}"),
    }
    assert_eq!(
        state.status.error().as_deref(),
        Some("DMM6500: NaN measurement response `NaN`")
    );
    assert_eq!(worker.phase, DmmPhase::Ended);
    assert_eq!(state.value, num(1.5));
}

#[test]
fn failed_startups_name_their_phase() {
    let config = Config::new("localhost", 1);
    let failed = |steps: &[&str], reply: DmmReply| {
        let mut state = State::new(0);
        let mut worker = DmmWorker::new(vec![]);
        for step in steps {
            let good = DmmReply {
                result: Ok(step.to_string()),
                number: Err(String::new()),
            };
            worker.record(&config, &mut state, good, 0);
        }
        match worker.record(&config, &mut state, reply, 0) {
            DmmOutcome::Failed { startup, .. } => startup.unwrap(),
            other => panic!("{other:?}"),
        }
    };
    let broken = || DmmReply {
        result: Err("gone".to_owned()),
        number: Err(String::new()),
    };
    assert_eq!(failed(&[], broken()), "DMM6500 connection failed: gone");
    assert_eq!(failed(&[""], broken()), "DMM6500 setup failed: gone");
    let other = DmmReply {
        result: Ok("SIGLENT".to_owned()),
        number: Err(String::new()),
    };
    assert_eq!(
        failed(&[""], other),
        "DMM6500 setup failed: identity `SIGLENT` did not match KEITHLEY DMM6500"
    );
    assert_eq!(
        failed(&["", "KEITHLEY,DMM6500"], broken()),
        "DMM6500 initial read failed: gone"
    );
}

#[test]
fn measurement_errors_quote_the_response() {
    assert_eq!(
        measurement("x"),
        Err("invalid measurement response `x`: invalid float literal".to_owned())
    );
    assert_eq!(
        measurement("nan"),
        Err("NaN measurement response `nan`".to_owned())
    );
    assert_eq!(
        measurement("-9.9e37"),
        Err("overrange measurement response `-9.9e37`".to_owned())
    );
    assert_eq!(measurement("9.8e37"), Ok(num(9.8e37)));
}

#[test]
fn samples_count_up_and_age() {
    let mut state = State::new(100);
    assert_eq!(state.sample(90).unwrap().age_ns, 0);
    state.publish_sample(num(2.5), 200);
    let sample = state.sample(250).unwrap();
    assert_eq!(sample.value, num(2.5));
    assert_eq!(sample.reported_sequence, 1);
    assert_eq!(sample.age_ns, 50);
    state.sample_sequence = u64::MAX;
    assert_eq!(state.sample(250).unwrap().reported_sequence, MAX_EXACT_INTEGER);
    state.publish_sample(num(3.5), 300);
    assert_eq!(state.sample_sequence, 0);
    state.status.latch_error("broken".to_owned());
    assert_eq!(state.sample(300).err().as_deref(), Some("broken"));
}

#[test]
fn responses_read_back() {
    let peripheral = KeithleyDmm6500::new(9);
    assert_eq!(peripheral.id().model_number, MODEL_NUMBER);
    let packet = write_response(&[3; METRICS_SIZE], num(1.5), num(7.0), num(0.25));
    assert_eq!(packet.len(), peripheral.operating_roundtrip_output_size(METRICS_SIZE));
    assert_eq!(
        peripheral.parse_operating_roundtrip(&packet, METRICS_SIZE),
        [num(1.5), num(7.0), num(0.25)]
    );
    assert!(peripheral.validate_operating_roundtrip(&packet, METRICS_SIZE));
    let request = peripheral.emit_operating_roundtrip(0x0102_0304);
    assert_eq!(request, [4, 3, 2, 1, 0, 0, 0, 0]);
    assert_eq!(process_request(&request), 0x0102_0304);
}

#[test]
fn packets_read_back_what_was_written() {
    let values = [num(1.0), num(-2.5), num(f64::INFINITY)];
    let request = encode_request(99, &values);
    assert_eq!(request_id(&request), 99);
    assert_eq!(decode_values(&request, 8, 3), values);
    let response = encode_response(&[1, 2, 3], &values);
    assert_eq!(response.len(), 27);
    assert_eq!(decode_values(&response, 3, 3), values);
    assert!(is_valid_response(&response, 3, 3));
    assert!(!is_valid_response(&response, 3, 2));
    assert!(!has_nan(&values));
    assert!(has_nan(&[num(0.0), num(f64::NAN)]));
    assert!(!is_valid_response(
        &encode_response(&[], &[num(f64::NAN)]),
        0,
        1
    ));
}

#[test]
fn timeouts_cover_the_aperture() {
    let mut config = Config::new("localhost", 1);
    config.connection.connect_timeout = Span::from_secs(1);
    config.connection.read_timeout = Span::from_secs(2);
    config.connection.write_timeout = Span::from_secs(1);
    let short = config.measurement_read_timeout(Span::from_millis(1));
    assert_eq!(short, Span::from_secs(2));
    let long = config.measurement_read_timeout(Span::from_secs(60));
    assert_eq!(long, Span::from_millis(60_250));
    let connection = config.effective_connection(Span::from_secs(60));
    assert_eq!(connection.read_timeout, long);
    assert_eq!(connection.address, config.connection.address);
    assert_eq!(connection.expected_model, "DMM6500");
    assert!(config.startup_timeout(Span::from_secs(60)).ns >= long.ns);
}

#[test]
fn errors_name_their_phase() {
    assert_eq!(
        startup_error(StartupPhase::Connection, "x"),
        "DMM6500 connection failed: x"
    );
    assert_eq!(startup_error(StartupPhase::Setup, "x"), "DMM6500 setup failed: x");
    assert_eq!(
        startup_error(StartupPhase::InitialRead, "x"),
        "DMM6500 initial read failed: x"
    );
    assert_eq!(worker_error("x"), "DMM6500: x");
}
