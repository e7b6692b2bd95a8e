use deimos::ip_literal::is_ipv6;
use deimos::peripheral::instruments::scpi::{
    address_with_default_port, connect_error, exchange_error, frame_command, validate_command,
    ConnectFailure, ExchangeFailure, ResponseBuffer, ScpiTcpConfig,
};
use deimos::span::Span;

/// Sends a query and reads its response from what arrives part by part.
fn query(
    command: &str,
    response_parts: &[&[u8]],
    max_response_len: usize,
) -> (Vec<u8>, Result<String, String>) {
    let sent = frame_command(command).unwrap();
    let mut buffer = ResponseBuffer::new(max_response_len);
    let mut parts = response_parts.iter();
    loop {
        let available: &[u8] = parts.next().copied().unwrap_or(&[]);
        match buffer.take(command, available) {
            Err(error) => return (sent, Err(error)),
            Ok(taken) if taken.complete => break,
            Ok(taken) => assert_eq!(taken.count, available.len()),
        }
    }
    (sent, buffer.finish(command))
}

#[test]
fn query_frames_command_and_assembles_partial_response() {
    let (sent, response) = query("*IDN?", &[b"SIGLENT,", b"SDG2042X\r\n"], 64);
    assert_eq!(response.unwrap(), "SIGLENT,SDG2042X");
    assert_eq!(sent, b"*IDN?\n");
}

#[test]
fn query_rejects_oversized_response() {
    let (_, response) = query("READ?", &[b"123456789\n"], 8);
    assert!(response.unwrap_err().contains("exceeded"));
}

#[test]
fn command_rejects_embedded_newline() {
    assert!(validate_command("OUTP ON\n*RST").is_err());
}

#[test]
fn default_port_handles_names_and_ipv6_literals() {
    assert_eq!(
        address_with_default_port("instrument".to_owned()),
        "instrument:5025"
    );
    assert_eq!(
        address_with_default_port("instrument:1234".to_owned()),
        "instrument:1234"
    );
    assert_eq!(address_with_default_port("::1".to_owned()), "[::1]:5025");
    assert_eq!(address_with_default_port("[::1]".to_owned()), "[::1]:5025");
    assert_eq!(
        address_with_default_port("[::1]:1234".to_owned()),
        "[::1]:1234"
    );
}

#[test]
fn connection_config_validates_identity_case_insensitively() {
    let config = ScpiTcpConfig::new("instrument", 7, "Siglent", "SDG2042X");
    assert_eq!(config.address, "instrument:5025");
    assert!(config
        .validate_identity("SIGLENT TECHNOLOGIES,sdg2042x,123,1.0")
        .is_ok());
    assert!(config
        .validate_identity("KEITHLEY,DMM6500,123,1.0")
        .is_err());
}

#[test]
fn commands_are_told_why_they_are_refused() {
    assert_eq!(
        validate_command(""),
        Err("SCPI command cannot be empty".to_owned())
    );
    assert_eq!(
        validate_command("µ"),
        Err("SCPI command must be ASCII".to_owned())
    );
    assert_eq!(
        validate_command("A\rB"),
        Err("SCPI command cannot contain a line ending".to_owned())
    );
    assert!(frame_command("A\n").is_err());
    assert!(validate_command("*RST").is_ok());
}

#[test]
fn responses_end_with_their_first_line() {
    let mut buffer = ResponseBuffer::new(16);
    let taken = buffer.take("READ?", b"1\n2\n").unwrap();
    assert_eq!((taken.count, taken.complete), (2, true));
    assert_eq!(buffer.finish("READ?").unwrap(), "1");
}

#[test]
fn responses_are_told_why_they_are_refused() {
    assert_eq!(
        query("READ?", &[b"12"], 8).1,
        Err("connection closed before response to `READ?` was terminated".to_owned())
    );
    assert_eq!(
        query("READ?", &[b"12345", b"6789\n"], 8).1,
        Err("response to `READ?` exceeded 8 bytes".to_owned())
    );
    assert_eq!(
        query("READ?", &[b"\r\n"], 8).1,
        Err("response to `READ?` was empty".to_owned())
    );
    assert_eq!(
        query("READ?", &["µ\n".as_bytes()], 8).1,
        Err("response to `READ?` was not ASCII".to_owned())
    );
    assert_eq!(query("READ?", &[b"1234567\n"], 8).1, Ok("1234567".to_owned()));
}

#[test]
fn parts_join_to_the_same_line_wherever_they_are_cut() {
    let line = b"KEITHLEY,DMM6500\n";
    for cut in 1..line.len() {
        let (_, response) = query("*IDN?", &[&line[..cut], &line[cut..]], 64);
        assert_eq!(response.unwrap(), "KEITHLEY,DMM6500");
    }
}

#[test]
fn connection_settings_are_validated() {
    let mut config = ScpiTcpConfig::new("instrument", 7, "Siglent", "SDG2042X");
    assert!(config.validate().is_ok());
    config.address = " ".to_owned();
    assert_eq!(config.validate(), Err("address cannot be empty".to_owned()));
    let mut config = ScpiTcpConfig::new("instrument", 7, "Siglent", "SDG2042X");
    config.expected_model = String::new();
    assert_eq!(
        config.validate(),
        Err("expected_vendor and expected_model cannot be empty".to_owned())
    );
}

#[test]
fn startup_timeout_adds_every_wait() {
    let mut config = ScpiTcpConfig::new("instrument", 7, "Siglent", "SDG2042X");
    config.connect_timeout = Span::from_millis(1_000);
    config.read_timeout = Span::from_millis(100);
    config.write_timeout = Span::from_millis(10);
    let none = config.startup_timeout(0, 0, Span::from_millis(0));
    let some = config.startup_timeout(3, 2, Span::from_millis(7));
    // Each query waits for a write and a read, each command for a write.
    assert_eq!(some.ns - none.ns, (3 * 110 + 2 * 10 + 7) * 1_000_000);
}

#[test]
fn ipv6_literals_are_recognized() {
    for s in [
        "::", "::1", "1::", "fe80::1:2", "1:2:3:4:5:6:7:8", "::ffff:1.2.3.4", "1:2:3:4:5:6:7::",
        "ABCD::ef01", "1:2:3:4:5:6:1.2.3.4",
    ] {
        assert!(is_ipv6(s), "{s}");
    }
    for s in [
        "", ":", ":::", "1", "1:2", "1:2:3:4:5:6:7", "1:2:3:4:5:6:7:8:9", "12345::", "g::",
        "1::2::3", "::1.2.3", "::1.2.3.256", "::01.2.3.4", "localhost", " ::1", "[::1]", "1.2.3.4",
    ] {
        assert!(!is_ipv6(s), "{s}");
    }
}

#[test]
fn connection_and_exchange_failures_are_worded() {
    let e = || "why".to_owned();
    let error = |failure: ConnectFailure| connect_error("host:1", failure);
    assert_eq!(error(ConnectFailure::Resolve(e())), "unable to resolve `host:1`: why");
    assert_eq!(
        error(ConnectFailure::ReadTimeout(e())),
        "unable to set read timeout for `host:1`: why"
    );
    assert_eq!(
        error(ConnectFailure::WriteTimeout(e())),
        "unable to set write timeout for `host:1`: why"
    );
    assert_eq!(
        error(ConnectFailure::NoDelay(e())),
        "unable to set TCP_NODELAY for `host:1`: why"
    );
    assert_eq!(
        error(ConnectFailure::Connect {
            resolved: "10.0.0.1:1".to_owned(),
            error: e(),
        }),
        "unable to connect to `10.0.0.1:1`: why"
    );
    assert_eq!(
        error(ConnectFailure::NoAddress),
        "`host:1` resolved to no socket addresses"
    );
    assert_eq!(exchange_error("X", ExchangeFailure::Write(e())), "failed to write `X`: why");
    assert_eq!(
        exchange_error("X", ExchangeFailure::Terminate(e())),
        "failed to terminate `X`: why"
    );
    assert_eq!(exchange_error("X", ExchangeFailure::Flush(e())), "failed to flush `X`: why");
    assert_eq!(
        exchange_error("X", ExchangeFailure::Read(e())),
        "failed to read response to `X`: why"
    );
}
