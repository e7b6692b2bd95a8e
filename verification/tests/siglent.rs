use deimos::binary64::Real;
use deimos::peripheral::instruments::siglent_sdg2042x::config::{
    ChannelConfig, Config, Load, Waveform,
};
use deimos::peripheral::instruments::siglent_sdg2042x::driver::{
    apply_request, basic_wave_command, check_event_status, combine_worker_results,
    expect_operation_complete, offset_text, parameter_value, startup_error, verify_output_state,
    verify_safe_waveform, worker_error, ChannelNumbers, Exchange, Reply, SafeRun, SetupRun,
    SiglentSdg2042XDriver,
};
use deimos::peripheral::instruments::siglent_sdg2042x::peripheral::{
    read_request, write_request, ChannelState, InstrumentState, SiglentSdg2042X, INPUT_SIZE,
    MODEL_NUMBER,
};
use deimos::peripheral::instruments::siglent_sdg2042x::worker::{
    SiglentAction, SiglentOutcome, SiglentWorker,
};
use deimos::span::Span;

fn num(x: f64) -> Real {
    Real::from_bits(x.to_bits())
}

fn number(x: Real) -> f64 {
    f64::from_bits(x.to_bits())
}

fn scpi_number(x: f64) -> String {
    format!("{x:.17e}")
}

fn numbers(config: &ChannelConfig, state: ChannelState) -> ChannelNumbers {
    ChannelNumbers {
        frequency_hz: scpi_number(number(state.frequency_hz)),
        amplitude_vpp: scpi_number(number(config.amplitude_vpp)),
        offset_voltage_v: scpi_number(number(state.offset_voltage_v)),
        stdev: scpi_number(number(state.stdev)),
        duty_percent: scpi_number(number(state.pulse_duty_cycle) * 100.0),
        phase_deg: scpi_number(number(state.phase_deg)),
    }
}

fn valid_state(offset_voltage_v: f64) -> InstrumentState {
    InstrumentState {
        ch1: ChannelState {
            enabled: num(1.0),
            frequency_hz: num(1_000.0),
            offset_voltage_v: num(offset_voltage_v),
            pulse_duty_cycle: num(0.5),
            phase_deg: num(10.0),
            stdev: num(0.1),
        },
        ch2: ChannelState {
            enabled: num(0.0),
            frequency_hz: num(1_000.0),
            offset_voltage_v: num(0.0),
            pulse_duty_cycle: num(0.5),
            phase_deg: num(0.0),
            stdev: num(0.1),
        },
    }
}

/// An instrument that answers commands and queries as the hardware does.
#[derive(Default)]
struct SiglentSimulator {
    waveforms: [String; 2],
    outputs: [bool; 2],
    esr: u8,
    fail_waveform_after: Option<usize>,
    waveform_reads: usize,
    commands: Vec<String>,
}

impl SiglentSimulator {
    fn with_esr(mut self, esr: u8) -> Self {
        self.esr = esr;
        self
    }

    fn failing_waveforms_after(mut self, reads: usize) -> Self {
        self.fail_waveform_after = Some(reads);
        self
    }

    fn respond(&mut self, command: &str) -> Option<String> {
        self.commands.push(command.to_owned());
        for number in 1..=2 {
            if command == format!("C{number}:OUTP ON,LOAD,100000") {
                self.outputs[number - 1] = true;
            } else if command.starts_with(&format!("C{number}:OUTP OFF")) {
                self.outputs[number - 1] = false;
            } else if command.starts_with(&format!("C{number}:BSWV ")) {
                self.waveforms[number - 1] = command.to_owned();
            }
        }
        match command {
            "*IDN?" => Some("Siglent Technologies,SDG2042X,TEST,1.0".to_owned()),
            "*OPC?" => Some("1".to_owned()),
            "*ESR?" => Some(format!("*ESR {}", self.esr)),
            "C1:OUTP?" | "C2:OUTP?" => {
                let index = usize::from(command.as_bytes()[1] - b'1');
                let state = if self.outputs[index] { "ON" } else { "OFF" };
                Some(format!("C{}:OUTP {state},LOAD,100000,PLRT,NOR", index + 1))
            }
            "C1:BSWV?" | "C2:BSWV?" => {
                let index = usize::from(command.as_bytes()[1] - b'1');
                let fail = self
                    .fail_waveform_after
                    .is_some_and(|limit| self.waveform_reads >= limit);
                self.waveform_reads += 1;
                if fail {
                    Some(format!(
                        "C{}:BSWV WVTP,SINE,FRQ,1000HZ,AMP,1V,OFST,0V,PHSE,0",
                        index + 1
                    ))
                } else {
                    Some(self.waveforms[index].clone())
                }
            }
            _ => None,
        }
    }

    fn exchange(&mut self, exchange: &Exchange) -> Reply {
        let response = self.respond(&exchange.text);
        assert_eq!(response.is_some(), exchange.query);
        let text = response.unwrap_or_default();
        let offset = offset_text(&text).and_then(|s| s.parse::<f64>().ok()).map(num);
        Reply {
            result: Ok(text),
            offset,
        }
    }

    /// Runs a worker until it ends. The stop signal is raised once the worker has
    /// nothing left to send.
    fn run(&mut self, driver: &mut SiglentSdg2042XDriver) -> Result<(), String> {
        let mut worker = SiglentWorker::new();
        let mut stop = false;
        loop {
            let reply = match worker.next(&driver.config) {
                SiglentAction::Connect => Reply {
                    result: Ok(String::new()),
                    offset: None,
                },
                SiglentAction::Perform(exchange) => self.exchange(&exchange),
                SiglentAction::TakeJob => {
                    if worker.take_job(driver, stop) {
                        stop = true;
                    }
                    continue;
                }
                SiglentAction::Prepare(request) => {
                    let ch1 = numbers(&driver.config.channels[0], request.ch1);
                    let ch2 = numbers(&driver.config.channels[1], request.ch2);
                    worker.prepare(&driver.config, &ch1, &ch2);
                    continue;
                }
                SiglentAction::Stop => unreachable!(),
            };
            match worker.record(driver, reply) {
                SiglentOutcome::Continue | SiglentOutcome::Ready => {}
                SiglentOutcome::Failed { startup, .. } => return Err(startup),
                SiglentOutcome::Ended(result) => return result,
            }
        }
    }
}

fn contains_command(commands: &[String], expected: &str) -> bool {
    commands.iter().any(|command| command == expected)
}

#[test]
fn repeated_controller_state_is_queued_for_reassertion() {
    let mut driver = SiglentSdg2042XDriver::new(Config::new("localhost", 1)).unwrap();
    let request = valid_state(1.0);
    let bytes = write_request(1, request);
    assert_eq!(bytes.len(), INPUT_SIZE);
    assert_eq!(driver.process_request(&bytes), 1);
    assert_eq!(driver.take_pending(), Some(request));
    assert_eq!(driver.process_request(&bytes), 1);
    assert_eq!(driver.next, Some(request));
}

#[test]
fn safe_state_precedes_commands_received_after_returning_to_binding() {
    let mut driver = SiglentSdg2042XDriver::new(Config::new("localhost", 1)).unwrap();
    let old = valid_state(1.0);
    let new = valid_state(2.0);

    driver.submit(old);
    driver.request_safe_state();
    driver.submit(new);

    assert_eq!(driver.take_pending(), Some(InstrumentState::default()));
    assert_eq!(driver.take_pending(), Some(new));
    assert_eq!(driver.take_pending(), None);
}

#[test]
fn controller_values_are_clamped_to_configured_ranges() {
    let configs: [ChannelConfig; 2] = std::array::from_fn(|_| ChannelConfig::default());
    let request = InstrumentState {
        ch1: ChannelState {
            enabled: num(f64::INFINITY),
            frequency_hz: num(f64::INFINITY),
            offset_voltage_v: num(f64::NEG_INFINITY),
            pulse_duty_cycle: num(99.0),
            phase_deg: num(-10.0),
            stdev: num(f64::INFINITY),
        },
        ..InstrumentState::default()
    }
    .normalized(&configs);
    assert_eq!(request.ch1.enabled, num(1.0));
    assert_eq!(request.ch1.frequency_hz, configs[0].frequency_hz.1);
    assert_eq!(request.ch1.offset_voltage_v, configs[0].offset_voltage_v.0);
    assert_eq!(request.ch1.pulse_duty_cycle, configs[0].pulse_duty_cycle.1);
    assert_eq!(request.ch1.phase_deg, configs[0].phase_deg.0);
    assert_eq!(request.ch1.stdev, configs[0].stdev.1);
}

#[test]
fn nan_safe_states_only_the_affected_channel() {
    let mut driver = SiglentSdg2042XDriver::new(Config::new("localhost", 1)).unwrap();
    let request = InstrumentState {
        ch1: ChannelState {
            enabled: num(1.0),
            offset_voltage_v: num(f64::NAN),
            ..ChannelState::default()
        },
        ch2: ChannelState {
            enabled: num(1.0),
            frequency_hz: num(1_000.0),
            offset_voltage_v: num(2.0),
            ..ChannelState::default()
        },
    };
    let bytes = write_request(1, request);
    assert_eq!(driver.process_request(&bytes), 1);
    let request = driver.next.unwrap();
    assert_eq!(request.ch1, ChannelState::default());
    assert_eq!(request.ch2.enabled, num(1.0));
    assert_eq!(request.ch2.offset_voltage_v, num(2.0));
    assert!(driver.latched_error().is_none());
}

#[test]
fn every_waveform_emits_only_its_applicable_fields() {
    let request = ChannelState {
        enabled: num(1.0),
        frequency_hz: num(1_000.0),
        offset_voltage_v: num(0.25),
        pulse_duty_cycle: num(0.4),
        phase_deg: num(30.0),
        stdev: num(0.1),
    };
    for (waveform, frequency, amplitude, offset, duty, phase, noise) in [
        (Waveform::Sine, true, true, true, false, true, false),
        (Waveform::Square, true, true, true, true, true, false),
        (Waveform::Ramp, true, true, true, false, true, false),
        (Waveform::Pulse, true, true, true, true, false, false),
        (Waveform::Noise, false, false, false, false, false, true),
        (Waveform::Dc, false, false, true, false, false, false),
    ] {
        let config = ChannelConfig {
            waveform,
            ..ChannelConfig::default()
        };
        let command = basic_wave_command(1, &config, &numbers(&config, request));
        assert_eq!(command.contains(",FRQ,"), frequency);
        assert_eq!(command.contains(",AMP,"), amplitude);
        assert_eq!(command.contains(",OFST,"), offset);
        assert_eq!(command.contains(",DUTY,"), duty);
        assert_eq!(command.contains(",PHSE,"), phase);
        assert_eq!(command.contains(",MEAN,"), noise);
        assert_eq!(command.contains(",STDEV,"), noise);
        if duty {
            assert!(command.contains(",DUTY,4.00000000000000000e1"));
        }
    }
}

#[test]
fn startup_rejects_an_unverified_safe_state() {
    let mut simulator = SiglentSimulator::default().failing_waveforms_after(0);
    let mut driver = SiglentSdg2042XDriver::new(Config::new("localhost", 1)).unwrap();
    let error = match simulator.run(&mut driver) {
        Ok(()) => panic!("startup accepted an unverified safe state"),
        Err(error) => error,
    };
    assert!(error.contains("setup failed"));
    assert!(error.contains("was not 0 V DC"));
    assert!(driver.latched_error().unwrap().starts_with("SDG2042X: "));
}

#[test]
fn startup_rejects_scpi_errors_reported_by_the_event_status_register() {
    let mut simulator = SiglentSimulator::default().with_esr(32);
    let mut driver = SiglentSdg2042XDriver::new(Config::new("localhost", 2)).unwrap();
    let error = match simulator.run(&mut driver) {
        Ok(()) => panic!("startup accepted an event-status command error"),
        Err(error) => error,
    };
    assert!(error.contains("setup failed"));
    assert!(error.contains("SCPI error bits"));
}

#[test]
fn operating_and_shutdown_failures_are_both_reported() {
    let error = combine_worker_results(
        Err("operating failure".to_owned()),
        Err("safe-state failure".to_owned()),
    )
    .unwrap_err();
    assert!(error.contains("operating failure"));
    assert!(error.contains("additionally failed to apply safe state during shutdown"));
    assert!(error.contains("safe-state failure"));
}

#[test]
fn shutdown_rejects_an_unverified_safe_state() {
    let mut simulator = SiglentSimulator::default().failing_waveforms_after(4);
    let mut driver = SiglentSdg2042XDriver::new(Config::new("localhost", 1)).unwrap();
    let error = simulator.run(&mut driver).unwrap_err();
    assert!(error.contains("failed to apply safe state during shutdown"));
    assert!(error.contains("was not 0 V DC"));
    assert_eq!(driver.latched_error(), Some(worker_error(&error)));
}

#[test]
fn worker_applies_complete_two_channel_state_and_shuts_down_safe() {
    let mut simulator = SiglentSimulator::default();

    let mut config = Config::new("localhost", 1);
    config.channels[0].waveform = Waveform::Sine;
    config.channels[1].waveform = Waveform::Noise;
    let mut driver = SiglentSdg2042XDriver::new(config.clone()).unwrap();

    let inputs = [
        1.0, 1_000.0, 0.25, 0.5, 30.0, 0.0, // ch1 sine
        1.0, 0.0, -0.1, 0.0, 0.0, 0.1, // ch2 noise
    ]
    .map(num);
    let bytes = driver.peripheral().emit_operating_roundtrip(8, &inputs);
    let expected = read_request(&bytes).normalized(&config.channels);
    assert_eq!(driver.process_request(&bytes), 8);

    simulator.run(&mut driver).unwrap();
    assert_eq!(
        driver.identity().as_deref(),
        Some("Siglent Technologies,SDG2042X,TEST,1.0")
    );
    assert_eq!(driver.applied().unwrap(), expected);
    let commands = simulator.commands;

    assert!(commands.iter().any(|command| {
        command.starts_with("C1:BSWV WVTP,SINE,FRQ,")
            && command.contains(",OFST,2.50000000000000000e-1")
            && command.contains(",PHSE,3.00000000000000000e1")
    }));
    assert!(commands.iter().any(|command| {
        command.starts_with("C2:BSWV WVTP,NOISE,MEAN,-1.00000000000000006e-1")
            && command.contains(",STDEV,1.00000000000000006e-1")
    }));
    for expected in ["C1:OUTP ON,LOAD,100000", "C2:OUTP ON,LOAD,100000"] {
        assert!(contains_command(&commands, expected));
    }
    // Four startup readbacks and two shutdown readbacks; Operating adds none.
    assert_eq!(
        commands
            .iter()
            .filter(|command| command.ends_with(":BSWV?"))
            .count(),
        6
    );
    assert_eq!(
        &commands[commands.len() - 10..],
        [
            "C1:BSWV WVTP,DC,OFST,0",
            "C2:BSWV WVTP,DC,OFST,0",
            "*OPC?",
            "C1:BSWV?",
            "C2:BSWV?",
            "C1:OUTP OFF,LOAD,100000",
            "C2:OUTP OFF,LOAD,100000",
            "*OPC?",
            "C1:OUTP?",
            "C2:OUTP?",
        ]
    );
}

#[test]
fn clamping_a_clamped_state_changes_nothing() {
    let config = ChannelConfig {
        frequency_hz: (num(10.0), num(20.0)),
        offset_voltage_v: (num(-1.0), num(1.0)),
        ..ChannelConfig::default()
    };
    let state = ChannelState {
        enabled: num(0.4),
        frequency_hz: num(5.0),
        offset_voltage_v: num(3.0),
        ..ChannelState::default()
    };
    let once = state.normalized(&config);
    assert_eq!(once.enabled, num(0.0));
    assert_eq!(once.frequency_hz, num(10.0));
    assert_eq!(once.offset_voltage_v, num(1.0));
    assert_eq!(once.normalized(&config), once);
    assert!(!once.contains_nan());
}

#[test]
fn requests_carry_the_state() {
    let state = valid_state(-0.75);
    let bytes = write_request(77, state);
    assert_eq!(&bytes[..8], &77_u64.to_le_bytes());
    assert_eq!(&bytes[24..32], &(-0.75_f64).to_le_bytes());
    assert_eq!(read_request(&bytes), state);
}

#[test]
fn names_and_sizes_follow_the_channels() {
    let peripheral = SiglentSdg2042X::new(9);
    assert_eq!(peripheral.id().model_number, MODEL_NUMBER);
    assert_eq!(peripheral.id().serial_number, 9);
    let inputs = peripheral.input_names();
    assert_eq!(inputs.len(), 12);
    assert_eq!(inputs[0], "ch1_enabled");
    assert_eq!(inputs[11], "ch2_stdev");
    assert_eq!(peripheral.output_names()[8], "ch2_applied_offset_voltage_v");
    assert_eq!(peripheral.operating_roundtrip_input_size(), 104);
    assert_eq!(peripheral.operating_roundtrip_output_size(64), 160);
}

#[test]
fn responses_are_validated_by_size_and_content() {
    let mut driver = SiglentSdg2042XDriver::new(Config::new("localhost", 1)).unwrap();
    let state = valid_state(1.5);
    driver.completed(state, Ok(())).unwrap();
    let packet = driver.write_response(&[7; 64]).unwrap();
    let peripheral = driver.peripheral();
    assert!(peripheral.validate_operating_roundtrip(&packet, 64));
    assert!(!peripheral.validate_operating_roundtrip(&packet[..packet.len() - 1], 64));
    let values = peripheral.parse_operating_roundtrip(&packet, 64);
    assert_eq!(values, state.values());
    assert_eq!(InstrumentState::from_values(&values), state);
    let mut broken = packet.clone();
    broken[64..72].copy_from_slice(&f64::NAN.to_le_bytes());
    assert!(!peripheral.validate_operating_roundtrip(&broken, 64));
}

#[test]
fn failed_application_is_not_reported_as_applied() {
    let mut driver = SiglentSdg2042XDriver::new(Config::new("localhost", 1)).unwrap();
    let error = driver
        .completed(valid_state(1.0), Err("no answer".to_owned()))
        .unwrap_err();
    assert_eq!(error, "failed to apply commanded state: no answer");
    assert_eq!(driver.applied().unwrap(), InstrumentState::default());
    driver.status.latch_error(worker_error(&error));
    assert!(driver.latched_error().unwrap().contains("no answer"));
    assert!(driver.applied().is_err());
    assert!(driver.write_response(&[0; 64]).is_err());
}

#[test]
fn configuration_errors_name_the_channel() {
    let mut config = Config::new("localhost", 1);
    assert!(config.validate().is_ok());
    config.channels[1].frequency_hz = (num(2.0), num(1.0));
    let error = config.validate().unwrap_err();
    assert!(error.contains('2'), "{error}");
    assert!(SiglentSdg2042XDriver::new(config).is_err());
    let mut config = Config::new("localhost", 1);
    config.channels[0].waveform = Waveform::Sine;
    config.channels[0].amplitude_vpp = num(f64::NAN);
    assert!(config.validate().is_err());
    let mut config = Config::new("localhost", 1);
    config.channels[0].load = Load::Ohms(0);
    assert!(config.validate().is_err());
    assert_eq!(Load::Ohms(50).scpi(), "50");
    assert_eq!(Load::HighImpedance.scpi(), "100000");
}

#[test]
fn readbacks_are_read_field_by_field() {
    let readback = "C1:BSWV WVTP,DC,OFST, 0V";
    assert_eq!(parameter_value(readback, "wvtp").as_deref(), Some("DC"));
    assert_eq!(parameter_value(readback, "OFST").as_deref(), Some("0V"));
    assert_eq!(parameter_value(readback, "FRQ"), None);
    assert_eq!(parameter_value("C1:BSWV WVTP", "WVTP"), None);
    assert_eq!(offset_text(readback).as_deref(), Some("0"));
    assert!(verify_safe_waveform(1, readback, Some(num(-0.0))).is_ok());
    assert_eq!(
        verify_safe_waveform(2, readback, Some(num(0.5))),
        Err(format!("channel 2 waveform readback `{readback}` was not 0 V DC"))
    );
    assert!(verify_safe_waveform(1, readback, None).is_err());
    assert!(verify_output_state(1, false, "50", "c1:outp off,load,50,plrt,nor").is_ok());
    assert_eq!(
        verify_output_state(1, true, "50", "C1:OUTP OFF,LOAD,50"),
        Err(
            "channel 1 output readback `C1:OUTP OFF,LOAD,50` did not start with \
             `C1:OUTP ON,LOAD,50`"
                .to_owned()
        )
    );
    assert!(expect_operation_complete(" 1\n").is_ok());
    assert_eq!(
        expect_operation_complete("0"),
        Err("unexpected *OPC? response `0`".to_owned())
    );
}

#[test]
fn event_status_bits_are_masked() {
    assert!(check_event_status("*ESR 0").is_ok());
    assert!(check_event_status("*ESR 129").is_ok());
    assert_eq!(
        check_event_status("60"),
        Err("event status register reported SCPI error bits 60".to_owned())
    );
    assert!(check_event_status("*ESR 256").is_err());
    assert!(check_event_status("what").is_err());
}

#[test]
fn safe_run_goes_on_after_failures_and_reports_them_all() {
    let mut run = SafeRun::new();
    let mut steps = 0;
    while run.next().is_some() {
        run.record(Reply {
            result: Err("gone".to_owned()),
            offset: None,
        });
        steps += 1;
    }
    assert_eq!(steps, 10);
    let error = run.finish().unwrap_err();
    assert!(error.starts_with("channel 1 zero command: gone; channel 2 zero command: gone; "));
    assert!(error.ends_with("channel 2 output-off readback: gone"));
}

#[test]
fn wrong_identity_stops_the_setup() {
    let config = Config::new("localhost", 1);
    let mut run = SetupRun::new();
    let error = run
        .record(
            &config,
            Reply {
                result: Ok("KEITHLEY,DMM6500,1,1".to_owned()),
                offset: None,
            },
        )
        .unwrap_err();
    assert_eq!(
        error,
        "identity `KEITHLEY,DMM6500,1,1` did not match SIGLENT SDG2042X"
    );
}

#[test]
fn startup_timeout_counts_queries_and_commands() {
    let mut config = Config::new("localhost", 1);
    config.connection.connect_timeout = Span::from_secs(1);
    config.connection.read_timeout = Span::from_secs(10);
    config.connection.write_timeout = Span::from_millis(100);
    let driver = SiglentSdg2042XDriver::new(config).unwrap();
    let expected = driver.config.connection.startup_timeout(12, 6, Span::from_secs(0));
    assert_eq!(driver.startup_timeout(), expected);
}

#[test]
fn results_and_errors_are_combined() {
    assert!(combine_worker_results(Ok(()), Ok(())).is_ok());
    assert_eq!(
        combine_worker_results(Err("a".to_owned()), Ok(())),
        Err("a".to_owned())
    );
    assert!(startup_error(false, "x").contains("connection failed"));
    assert!(startup_error(true, "x").ends_with("x"));
    assert!(worker_error("x").ends_with("x"));
}

#[test]
fn a_failed_command_leads_to_the_safe_sequence() {
    let mut driver = SiglentSdg2042XDriver::new(Config::new("localhost", 1)).unwrap();
    let mut simulator = SiglentSimulator::default();
    let mut worker = SiglentWorker::new();
    let connected = Reply {
        result: Ok(String::new()),
        offset: None,
    };
    worker.record(&mut driver, connected);
    while let SiglentAction::Perform(exchange) = worker.next(&driver.config) {
        worker.record(&mut driver, simulator.exchange(&exchange));
    }
    assert!(worker.ready);
    driver.submit(valid_state(1.0));
    assert!(!worker.take_job(&mut driver, false));
    let request = match worker.next(&driver.config) {
        SiglentAction::Prepare(request) => request,
        other => panic!("{other:?}"),
    };
    let ch1 = numbers(&driver.config.channels[0], request.ch1);
    let ch2 = numbers(&driver.config.channels[1], request.ch2);
    worker.prepare(&driver.config, &ch1, &ch2);
    let gone = Reply {
        result: Err("gone".to_owned()),
        offset: None,
    };
    worker.record(&mut driver, gone);
    let mut exchanges = 0;
    let mut result = Ok(());
    while let SiglentAction::Perform(exchange) = worker.next(&driver.config) {
        exchanges += 1;
        let outcome = worker.record(&mut driver, simulator.exchange(&exchange));
        if let SiglentOutcome::Ended(ended) = outcome {
            result = ended;
        }
    }
    assert_eq!(exchanges, 10);
    assert_eq!(result.unwrap_err(), "failed to apply commanded state: gone");
    assert_eq!(
        driver.latched_error().unwrap(),
        "SDG2042X: failed to apply commanded state: gone"
    );
    assert!(matches!(worker.next(&driver.config), SiglentAction::Stop));
}

#[test]
fn a_failed_connection_ends_the_worker() {
    let mut driver = SiglentSdg2042XDriver::new(Config::new("localhost", 1)).unwrap();
    let mut worker = SiglentWorker::new();
    let refused = Reply {
        result: Err("refused".to_owned()),
        offset: None,
    };
    match worker.record(&mut driver, refused) {
        SiglentOutcome::Failed { startup, error } => {
            assert_eq!(startup, "SDG2042X connection failed: refused");
            assert_eq!(error, "refused");
        }
        other => panic!("{other:?}"),
    }
    assert!(matches!(worker.next(&driver.config), SiglentAction::Stop));
}

#[test]
fn relays_close_only_for_enabled_channels() {
    let config = Config::new("localhost", 1);
    let state = valid_state(0.5).normalized(&config.channels);
    let ch1 = numbers(&config.channels[0], state.ch1);
    let ch2 = numbers(&config.channels[1], state.ch2);
    let commands = apply_request(&config, state, &ch1, &ch2);
    assert!(contains_command(&commands, "C1:OUTP ON,LOAD,100000"));
    assert!(contains_command(&commands, "C2:OUTP OFF,LOAD,100000"));
    assert!(commands.iter().any(|c| c.starts_with("C1:BSWV WVTP,DC,OFST,5.0")));
}
