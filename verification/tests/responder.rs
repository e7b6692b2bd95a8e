use deimos::peripheral::id::PeripheralId;
use deimos::peripheral::instruments::protocol::{thread_name, Protocol, SendError};
use deimos::peripheral::instruments::responder::{
    attach_failure, check_attach, join_errors, protocol_thread_name, send_payload, startup_outcome,
    Registered, RequestFields, RequestSizes, Responder, ResponderAction, ResponderReply,
    ResponderState, SendAttempt, Startup, ThreadEnd, WorkerStatus, CHANNEL_POLL_INTERVAL_NS,
};

const TEST_ID: PeripheralId = PeripheralId {
    model_number: 99,
    serial_number: 7,
};

const SIZES: RequestSizes = RequestSizes {
    binding: 4,
    configuring: 19,
    operating: 8,
};

fn binding(configuring_timeout_ms: u32) -> RequestFields {
    RequestFields {
        configuring_timeout_ms,
        dt_ns: 0,
        loss_of_contact_limit: 0,
    }
}

fn configuring(dt_ns: u32, loss_of_contact_limit: u16) -> RequestFields {
    RequestFields {
        configuring_timeout_ms: 0,
        dt_ns,
        loss_of_contact_limit,
    }
}

#[test]
fn worker_status_preserves_the_first_error() {
    let mut status = WorkerStatus::default();
    status.set_identity("vendor,model,serial,version".to_owned());
    status.latch_error("first".to_owned());
    status.latch_error("second".to_owned());
    assert_eq!(
        status.identity().as_deref(),
        Some("vendor,model,serial,version")
    );
    assert_eq!(status.error().as_deref(), Some("first"));
}

#[test]
fn responder_responder_completes_lifecycle_and_increments_response_ids() {
    let mut responder = Responder::new(SIZES);
    let mut losses = 0;
    let mut now: u64 = 0;

    assert!(matches!(responder.begin(false, false, now), ResponderAction::Receive { .. }));
    let action = responder.receive(Some(SIZES.binding), binding(100), now);
    let reply = ResponderReply::Binding {
        configuring_timeout_ms: 100,
    };
    assert_eq!(action, ResponderAction::Send(reply));
    assert_eq!(responder.sent(reply, true, now), ResponderAction::Again);

    now += 1_000_000;
    assert!(matches!(responder.begin(false, false, now), ResponderAction::Receive { .. }));
    let action = responder.receive(Some(SIZES.configuring), configuring(10_000_000, 10), now);
    let reply = ResponderReply::Configuring {
        dt_ns: 10_000_000,
        loss_of_contact_limit: 10,
    };
    assert_eq!(action, ResponderAction::Send(reply));
    assert_eq!(responder.sent(reply, true, now), ResponderAction::Again);

    for request_id in [41_u64, 42] {
        now += 1_000_000;
        assert!(matches!(responder.begin(false, false, now), ResponderAction::Receive { .. }));
        let action = responder.receive(Some(SIZES.operating), binding(0), now);
        assert_eq!(action, ResponderAction::Process);
        let reply = ResponderReply::Operating { id: request_id - 40 };
        assert_eq!(responder.processed(now), ResponderAction::Send(reply));
        assert_eq!(responder.sent(reply, true, now), ResponderAction::Again);
    }

    if responder.begin(true, false, now) == ResponderAction::Stop {
        losses += 1;
    }
    assert_eq!(losses, 1);
}

#[test]
fn configuring_timeout_requests_safe_state_before_returning_to_binding() {
    let mut responder = Responder::new(SIZES);
    let reply = ResponderReply::Binding {
        configuring_timeout_ms: 1,
    };
    assert_eq!(
        responder.receive(Some(SIZES.binding), binding(1), 0),
        ResponderAction::Send(reply)
    );
    responder.sent(reply, true, 0);
    assert_eq!(
        responder.begin(false, false, 999_999),
        ResponderAction::Receive { timeout_ns: 1 }
    );
    assert_eq!(responder.begin(false, false, 1_000_000), ResponderAction::MakeSafe);
    assert_eq!(responder.state, ResponderState::Binding);
    assert_eq!(
        responder.receive(Some(SIZES.binding), binding(1), 1_000_000),
        ResponderAction::Send(reply)
    );
}

#[test]
fn protocol_responder_completes_lifecycle_and_increments_response_ids() {
    let mut protocol = Protocol::new(SIZES);
    let mut now: u64 = 0;

    protocol.begin(false, false, now);
    let reply = ResponderReply::Binding {
        configuring_timeout_ms: 100,
    };
    assert_eq!(
        protocol.receive(Some(SIZES.binding), binding(100), now),
        ResponderAction::Send(reply)
    );
    assert_eq!(protocol.sent(reply, Ok(()), now), Ok(ResponderAction::Again));

    let reply = ResponderReply::Configuring {
        dt_ns: 10_000_000,
        loss_of_contact_limit: 10,
    };
    protocol.begin(false, false, now);
    assert_eq!(
        protocol.receive(Some(SIZES.configuring), configuring(10_000_000, 10), now),
        ResponderAction::Send(reply)
    );
    assert_eq!(protocol.sent(reply, Ok(()), now), Ok(ResponderAction::Again));

    for request_id in [41_u64, 42] {
        now += 1_000_000;
        protocol.begin(false, false, now);
        assert_eq!(
            protocol.receive(Some(SIZES.operating), binding(0), now),
            ResponderAction::Process
        );
        let reply = ResponderReply::Operating { id: request_id - 40 };
        assert_eq!(protocol.processed(true, now), ResponderAction::Send(reply));
        assert_eq!(protocol.sent(reply, Ok(()), now), Ok(ResponderAction::Again));
    }

    assert_eq!(protocol.begin(true, false, now), ResponderAction::Stop);
    assert_eq!(
        thread_name("instrument-protocol-test"),
        "instrument-proxy-instrument-protocol-test"
    );
}

#[test]
fn refused_requests_and_failed_sends_are_told_apart() {
    let mut protocol = Protocol::new(SIZES);
    protocol.responder.state = ResponderState::Operating {
        response_id: 5,
        last_contact_ns: 1,
        loss_of_contact_timeout_ns: 1_000_000,
    };
    let before = protocol.responder.state;
    assert_eq!(protocol.processed(false, 2), ResponderAction::Again);
    assert_eq!(protocol.responder.state, before);
    let reply = ResponderReply::Operating { id: 5 };
    assert_eq!(
        protocol.sent(reply, Err(SendError::Response("bad".to_owned())), 2),
        Err("bad".to_owned())
    );
    assert_eq!(
        protocol.sent(reply, Err(SendError::Channel("gone".to_owned())), 2),
        Err("failed to send instrument proxy packet: gone".to_owned())
    );
}

#[test]
fn silence_in_operation_makes_the_instrument_safe() {
    let mut responder = Responder::new(SIZES);
    let reply = ResponderReply::Configuring {
        dt_ns: 10_000_000,
        loss_of_contact_limit: 10,
    };
    responder.sent(reply, true, 0);
    assert_eq!(
        responder.begin(false, false, 50_000_000),
        ResponderAction::Receive {
            timeout_ns: CHANNEL_POLL_INTERVAL_NS
        }
    );
    assert_eq!(responder.receive(None, binding(0), 50_000_000), ResponderAction::Again);
    assert_eq!(
        responder.begin(false, false, 100_000_000),
        ResponderAction::Receive { timeout_ns: 0 }
    );
    assert_eq!(responder.receive(None, binding(0), 100_000_000), ResponderAction::MakeSafe);
    assert_eq!(responder.state, ResponderState::Binding);
}

#[test]
fn short_contact_limits_are_raised_to_a_millisecond() {
    let mut responder = Responder::new(SIZES);
    responder.sent(
        ResponderReply::Configuring {
            dt_ns: 1,
            loss_of_contact_limit: 1,
        },
        true,
        0,
    );
    assert_eq!(
        responder.state,
        ResponderState::Operating {
            response_id: 1,
            last_contact_ns: 0,
            loss_of_contact_timeout_ns: 1_000_000,
        }
    );
}

#[test]
fn latched_errors_suppress_responses() {
    let mut responder = Responder::new(SIZES);
    assert_eq!(responder.begin(false, true, 0), ResponderAction::Sleep);
    assert_eq!(responder.state, ResponderState::Binding);
}

#[test]
fn requests_of_the_wrong_size_are_skipped() {
    let mut responder = Responder::new(SIZES);
    assert_eq!(responder.receive(None, binding(0), 0), ResponderAction::Again);
    assert_eq!(
        responder.receive(Some(SIZES.operating), binding(0), 0),
        ResponderAction::Again
    );
}

#[test]
fn failed_send_stops_the_responder() {
    let mut responder = Responder::new(SIZES);
    let reply = ResponderReply::Binding {
        configuring_timeout_ms: 1,
    };
    assert_eq!(responder.sent(reply, false, 0), ResponderAction::Stop);
    assert_eq!(send_payload(SendAttempt::Sent, true), Some(true));
    assert_eq!(send_payload(SendAttempt::TimedOut, false), None);
    assert_eq!(send_payload(SendAttempt::TimedOut, true), Some(false));
    assert_eq!(send_payload(SendAttempt::Disconnected, false), Some(false));
}

#[test]
fn thread_failures_are_joined() {
    assert!(join_errors(Some(ThreadEnd::Finished), None).is_ok());
    assert_eq!(
        join_errors(
            Some(ThreadEnd::Failed("a".to_owned())),
            Some(ThreadEnd::Panicked)
        ),
        Err("protocol responder: a; instrument worker panicked".to_owned())
    );
}

#[test]
fn startup_failures_are_reported() {
    assert!(startup_outcome("DMM6500", Startup::Ready).is_ok());
    assert_eq!(
        startup_outcome("DMM6500", Startup::Failed("x".to_owned())),
        Err("x".to_owned())
    );
    assert_eq!(
        startup_outcome("DMM6500", Startup::NotReported("timed out".to_owned())),
        Err("DMM6500 startup did not complete: timed out".to_owned())
    );
}

#[test]
fn names_and_identities_are_attached_once() {
    let there = [Registered {
        name: "dmm".to_owned(),
        id: TEST_ID,
    }];
    let other = PeripheralId {
        model_number: 99,
        serial_number: 8,
    };
    assert!(check_attach("siglent", other, &there).is_ok());
    assert_eq!(
        check_attach("dmm", other, &there),
        Err("Peripheral name `dmm` is duplicated".to_owned())
    );
    assert_eq!(
        check_attach("siglent", TEST_ID, &there),
        Err(format!("Peripheral ID `{}` is duplicated", TEST_ID.show()))
    );
    assert_eq!(
        attach_failure("a".to_owned(), "DMM6500", Err("b".to_owned())),
        "a; additionally failed to stop DMM6500: b"
    );
    assert_eq!(attach_failure("a".to_owned(), "DMM6500", Ok(())), "a");
    assert_ne!(protocol_thread_name(TEST_ID), protocol_thread_name(other));
    assert!(protocol_thread_name(TEST_ID).starts_with("instrument-proxy-"));
}
