use deimos::bytes::{frame_packet, unframe_packet};
use deimos::peripheral::hootl::{
    check_send, loss_of_contact_timeout_ns, AddressKind, DriverState, HootlAction, HootlConfig,
    HootlMode, HootlRunner, HootlTransport, OutputSource, Reply,
};
use deimos::peripheral::hootl_mockup::{
    MockMode, MockState, MockupAction, MockupConfig, MockupMetrics, MockupReply, MockupRunner,
    MockupState, MockupTransport,
};

const CONFIG: HootlConfig = HootlConfig {
    binding_size: 4,
    configuring_size: 19,
    input_size: 12,
    loss_of_contact_timeout_ns: 1_000,
    end_ns: None,
};

const MOCKUP: MockupConfig = MockupConfig {
    binding_size: 4,
    configuring_size: 19,
    input_size: 12,
    output_size: 100,
    metrics_size: 64,
    end_ns: None,
};

fn operating(now_ns: u64) -> HootlRunner<u32> {
    let mut runner: HootlRunner<u32> = HootlRunner::new(CONFIG);
    assert_eq!(runner.poll(false, 0, now_ns), HootlAction::Receive);
    let reply = Reply::Binding {
        timeout_ns: 20_000_000,
    };
    assert_eq!(
        runner.receive(Some(&[0; 4]), Some(7), 20, now_ns),
        HootlAction::Send(reply)
    );
    assert_eq!(runner.sent(reply, true, now_ns), HootlAction::Again);
    assert_eq!(runner.controller_addr, Some(7));
    assert_eq!(runner.mode(), HootlMode::Configuring);
    assert_eq!(
        runner.receive(Some(&[0; 19]), Some(7), 0, now_ns),
        HootlAction::Send(Reply::Configuring)
    );
    assert_eq!(runner.sent(Reply::Configuring, true, now_ns), HootlAction::Again);
    assert_eq!(runner.mode(), HootlMode::Operating);
    runner
}

#[test]
fn imitated_peripheral_goes_through_the_states_of_the_hardware() {
    let mut runner = operating(50);
    let mut packet = [0; 12];
    packet[..8].copy_from_slice(&42_u64.to_le_bytes());
    for id in 0..3 {
        let reply = Reply::Operating {
            id,
            last_input_id: 42,
        };
        assert_eq!(
            runner.receive(Some(&packet), Some(7), 0, 60),
            HootlAction::Send(reply)
        );
        assert_eq!(runner.sent(reply, true, 60), HootlAction::Again);
    }
    assert_eq!(
        runner.state,
        DriverState::Operating {
            counter: 3,
            last_contact_ns: 60,
        }
    );
}

#[test]
fn silence_leads_back_to_binding() {
    let mut runner = operating(0);
    assert_eq!(runner.receive(None, None, 0, 999), HootlAction::Sleep);
    assert_eq!(runner.mode(), HootlMode::Operating);
    assert_eq!(runner.receive(None, None, 0, 1_000), HootlAction::Again);
    assert_eq!(runner.mode(), HootlMode::Binding);
    assert_eq!(runner.controller_addr, None);
}

#[test]
fn configuring_runs_out() {
    let mut runner: HootlRunner<u32> = HootlRunner::new(CONFIG);
    let reply = Reply::Binding { timeout_ns: 10 };
    runner.receive(Some(&[0; 4]), Some(7), 0, 0);
    runner.sent(reply, true, 0);
    assert_eq!(runner.poll(false, 0, 10), HootlAction::Receive);
    assert_eq!(runner.poll(false, 0, 11), HootlAction::Again);
    assert_eq!(runner.mode(), HootlMode::Binding);
}

#[test]
fn scheduled_end_and_failed_replies_terminate() {
    let mut runner: HootlRunner<u32> = HootlRunner::new(CONFIG.with_end(Some(5)));
    assert_eq!(runner.poll(false, 5, 0), HootlAction::Receive);
    assert_eq!(runner.poll(false, 6, 0), HootlAction::Exit);
    assert_eq!(runner.mode(), HootlMode::Terminated);
    let mut runner: HootlRunner<u32> = HootlRunner::new(CONFIG);
    assert_eq!(runner.sent(Reply::Configuring, false, 0), HootlAction::Exit);
    let mut runner = operating(0);
    let reply = Reply::Operating {
        id: 0,
        last_input_id: 0,
    };
    assert_eq!(runner.sent(reply, false, 0), HootlAction::Again);
    assert_eq!(runner.mode(), HootlMode::Binding);
    let mut runner: HootlRunner<u32> = HootlRunner::new(CONFIG);
    assert_eq!(runner.poll(true, 0, 0), HootlAction::Exit);
}

#[test]
fn packets_of_the_wrong_size_are_skipped() {
    let mut runner: HootlRunner<u32> = HootlRunner::new(CONFIG);
    assert_eq!(runner.receive(Some(&[0; 5]), None, 0, 0), HootlAction::Again);
    assert_eq!(runner.receive(None, None, 0, 0), HootlAction::Sleep);
    assert_eq!(loss_of_contact_timeout_ns(u32::MAX, u16::MAX), 0xffff_ffff * 0xffff);
}

#[test]
fn outputs_are_synthetic_in_operation_only() {
    assert_eq!(HootlMode::Operating.output_source(), OutputSource::Synthetic);
    for mode in [HootlMode::Binding, HootlMode::Configuring, HootlMode::Terminated] {
        assert_eq!(mode.output_source(), OutputSource::Zeroed);
    }
}

#[test]
fn transports_ask_for_their_kind_of_address() {
    let channel = HootlTransport::thread_channel("x");
    assert!(check_send(&channel, true, None).is_ok());
    assert!(matches!(
        MockupTransport::thread_channel("x"),
        MockupTransport::ThreadChannel { name } if name == "x"
    ));
    assert!(matches!(
        MockupTransport::unix_socket("y"),
        MockupTransport::UnixSocket { name } if name == "y"
    ));
    let unix = HootlTransport::unix_socket("x");
    assert!(check_send(&unix, true, Some(AddressKind::Unix)).is_ok());
    assert!(check_send(&unix, true, Some(AddressKind::Udp)).is_err());
    assert!(check_send(&unix, true, None).is_err());
    assert!(check_send(&HootlTransport::udp(), true, Some(AddressKind::Udp)).is_ok());
    assert!(check_send(&HootlTransport::udp(), false, Some(AddressKind::Udp)).is_err());
}

#[test]
fn mock_peripheral_counts_while_it_operates() {
    let mut state = MockState::default();
    assert_eq!(state.next_id(0, 0, 10, None), None);
    assert_eq!(state.mode, MockMode::Configuring { start_ns: 0 });
    assert_eq!(state.next_id(0, 5, 10, None), Some(0));
    assert_eq!(state.next_id(0, 6, 10, None), Some(1));
    assert_eq!(state.next_id(9, 7, 10, Some(8)), None);
    assert_eq!(state.mode, MockMode::Terminated);
    assert_eq!(state.next_id(0, 7, 10, None), None);
    let mut late = MockState::default();
    late.advance(0, 0, 10, None);
    late.advance(0, 11, 10, None);
    assert_eq!(late.mode, MockMode::Binding);
}

#[test]
fn mockup_runner_answers_and_counts() {
    let mut runner: MockupRunner<u32> = MockupRunner::new(MOCKUP);
    assert_eq!(runner.poll(0, 0), MockupAction::Receive);
    let reply = MockupReply::Binding {
        timeout_ns: 3_000_000,
    };
    assert_eq!(
        runner.receive(Some(&[0; 4]), Some(1), 3),
        MockupAction::Send(reply)
    );
    assert_eq!(runner.sent(reply, true, 0), MockupAction::Again);
    assert_eq!(
        runner.receive(Some(&[0; 19]), Some(1), 0),
        MockupAction::Send(MockupReply::Configuring)
    );
    assert_eq!(runner.sent(MockupReply::Configuring, true, 0), MockupAction::Again);
    let mut packet = [0; 12];
    packet[0] = 9;
    for id in 0..2 {
        let reply = MockupReply::Operating {
            metrics: Some(MockupMetrics {
                id,
                last_input_id: 9,
            }),
        };
        assert_eq!(
            runner.receive(Some(&packet), Some(1), 0),
            MockupAction::Send(reply)
        );
        assert_eq!(runner.sent(reply, true, 0), MockupAction::Again);
    }
    assert_eq!(runner.state, MockupState::Operating { counter: 2 });
    assert_eq!(runner.receive(None, None, 0), MockupAction::Sleep);
    assert_eq!(runner.sent(MockupReply::Configuring, false, 0), MockupAction::Exit);
}

#[test]
fn mockup_ends_on_schedule_and_leaves_overdue_configuring() {
    let mut runner: MockupRunner<u32> = MockupRunner::new(MockupConfig {
        end_ns: Some(5),
        ..MOCKUP
    });
    assert_eq!(runner.poll(6, 0), MockupAction::Exit);
    let mut runner: MockupRunner<u32> = MockupRunner::new(MOCKUP);
    runner.sent(MockupReply::Binding { timeout_ns: 10 }, true, 0);
    assert_eq!(runner.poll(0, 11), MockupAction::Again);
    assert_eq!(runner.state, MockupState::Binding);
}

#[test]
fn framed_packets_are_unframed() {
    let framed = frame_packet(&[1, 2], &[3, 4, 5]);
    assert_eq!(framed, [1, 2, 3, 4, 5]);
    assert_eq!(unframe_packet(&framed, 2, 8), Some(vec![3, 4, 5]));
    assert_eq!(unframe_packet(&[1], 2, 8), None);
}
