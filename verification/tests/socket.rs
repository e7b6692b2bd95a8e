use deimos::peripheral::id::PeripheralId;
use deimos::socket::address_book::AddressBook;
use deimos::socket::orchestrator::{
    check_socket, on_event, request_error, PoolOutcome, SocketOrchestrator, SocketRequest,
};
use deimos::socket::packet::SocketPacketMeta;
use deimos::socket::thread_channel::ThreadChannelSocket;
use deimos::socket::udp::{
    broadcast_from_addr_and_mask, broadcast_outcome, dedup_broadcast_targets,
    possible_broadcast_targets, Endpoint, InterfaceAddr, MapError, UdpSocket, BROADCAST,
};
use deimos::socket::unix::{may_be_socket, UnixSocket};
use deimos::socket::worker::{
    thread_name, QueueOutcome, SocketWorker, SocketWorkerCommand, SocketWorkerEvent, WorkerStep,
};

const A: PeripheralId = PeripheralId {
    model_number: 1,
    serial_number: 10,
};
const B: PeripheralId = PeripheralId {
    model_number: 1,
    serial_number: 11,
};

fn ip(a: u8, b: u8, c: u8, d: u8) -> u32 {
    u32::from_be_bytes([a, b, c, d])
}

#[test]
fn broadcast_address_uses_interface_mask() {
    let addr = ip(10, 42, 7, 9);
    let netmask = ip(255, 255, 255, 0);
    assert_eq!(broadcast_from_addr_and_mask(addr, netmask), ip(10, 42, 7, 255));
}

#[test]
fn explicit_broadcast_targets_are_deduplicated() {
    let socket = UdpSocket::with_broadcast_targets(&[
        ip(192, 168, 1, 255),
        ip(192, 168, 1, 255),
        ip(10, 0, 0, 255),
    ]);
    assert_eq!(
        socket.broadcast_targets(&[]),
        vec![ip(10, 0, 0, 255), ip(192, 168, 1, 255)]
    );
}

#[test]
fn possible_broadcast_targets_include_limited_broadcast() {
    assert!(possible_broadcast_targets(&[]).contains(&BROADCAST));
    assert_eq!(BROADCAST, ip(255, 255, 255, 255));
}

#[test]
fn interfaces_give_their_broadcast_addresses() {
    let interface = |ip: u32, broadcast: Option<u32>, netmask: Option<u32>| InterfaceAddr {
        ip: Some(ip),
        broadcast,
        netmask,
    };
    let targets = possible_broadcast_targets(&[
        interface(ip(10, 0, 0, 5), None, Some(ip(255, 0, 0, 0))),
        interface(ip(192, 168, 1, 5), Some(ip(192, 168, 1, 255)), None),
        InterfaceAddr {
            ip: None,
            broadcast: None,
            netmask: None,
        },
    ]);
    assert!(targets.contains(&ip(10, 255, 255, 255)));
    assert!(targets.contains(&ip(192, 168, 1, 255)));
    assert_eq!(dedup_broadcast_targets(&[3, 1, 3, 2, 1]), [1, 2, 3]);
    let found = UdpSocket::new().broadcast_targets(&[interface(
        ip(10, 0, 0, 5),
        None,
        Some(ip(255, 255, 255, 0)),
    )]);
    assert!(found.contains(&ip(10, 0, 0, 255)));
}

#[test]
fn udp_senders_are_known_by_their_token() {
    let mut socket = UdpSocket::new();
    let from = Endpoint {
        ip: ip(10, 0, 0, 5),
        port: 4000,
    };
    assert!(socket.received(Endpoint { port: 1, ..from }, 4000, 5, 8).is_none());
    let meta = socket.received(from, 4000, 5, 8).unwrap();
    assert_eq!(
        meta,
        SocketPacketMeta {
            pid: None,
            token: 0,
            time_ns: 5,
            size: 8,
        }
    );
    socket.update_map(A, meta.token).unwrap();
    assert_eq!(socket.received(from, 4000, 6, 8).unwrap().pid, Some(A));
    assert_eq!(
        socket.send_target(A),
        Err("Unable to send before socket is bound".to_owned())
    );
    socket.opened(false);
    assert_eq!(socket.send_target(A), Ok(from));
    assert_eq!(
        socket.send_target(B),
        Err(format!("Peripheral not present in address map: {}", B.show()))
    );
    assert!(matches!(socket.update_map(B, 77), Err(MapError::UnknownToken(77))));
    socket.close();
    assert!(socket.send_target(A).is_err());
}

#[test]
fn identities_that_meet_on_one_address_are_refused() {
    let mut book = AddressBook::new();
    assert!(book.update(A, 0));
    assert!(book.update(B, 1));
    assert_eq!(book.token_of(A), Some(0));
    assert_eq!(book.id_of(1), Some(B));
    assert!(book.update(A, 0));
    let other = PeripheralId {
        model_number: 2,
        serial_number: 10,
    };
    assert!(!book.update(other, 1));
}

#[test]
fn map_errors_are_worded() {
    assert_eq!(
        MapError::UnknownToken(5).message("", ""),
        "Unknown address token 5"
    );
    assert_eq!(
        MapError::Duplicates.message("a", "p"),
        "Duplicate addresses or peripheral IDs detected.\nAddress map: a\nPeripheral ID map: p"
    );
    assert!(broadcast_outcome(true, &["x".to_owned()]).is_ok());
    assert_eq!(
        broadcast_outcome(false, &["x".to_owned(), "y".to_owned()]),
        Err("Failed to send UDP packet on any broadcast target: x; y".to_owned())
    );
}

#[test]
fn unix_sockets_stand_in_the_operation_folder() {
    let mut socket = UnixSocket::new("ctrl");
    socket.prepare("/op".to_owned()).unwrap();
    assert_eq!(socket.path(), "/op/sock/ctrl");
    assert_eq!(socket.peripheral_socket_dir(), "/op/sock/per");
    socket.opened();
    assert_eq!(
        socket.prepare("/other".to_owned()),
        Err("Socket already open".to_owned())
    );
    assert_eq!(socket.received("/op/sock/per/a"), None);
    socket.update_map(A).unwrap();
    assert_eq!(socket.received("/op/sock/per/a"), Some(A));
    assert_eq!(socket.send_target(A), Ok("/op/sock/per/a".to_owned()));
    assert_eq!(socket.close(), "/op/sock/ctrl");
    assert!(socket.send_target(A).is_err());
    assert_eq!(socket.name(), "ctrl");
    assert!(may_be_socket(false, false));
    assert!(!may_be_socket(true, false));
}

#[test]
fn thread_channels_have_one_peer() {
    let mut socket = ThreadChannelSocket::new(A);
    assert_eq!(
        socket.check_send(A),
        Err("Unable to send before ThreadChannelSocket is open".to_owned())
    );
    socket.open = true;
    assert!(socket.check_send(A).is_ok());
    assert!(socket.check_send(B).unwrap_err().contains("cannot send to"));
    assert!(socket.update_map(A).is_ok());
    assert!(socket.update_map(B).unwrap_err().contains("received identity"));
    assert_eq!(socket.id(), A);
    assert_eq!(
        ThreadChannelSocket::socket_name(A),
        "thread-0000000000000001-000000000000000a"
    );
    assert_eq!(ThreadChannelSocket::received_size(10, 4), 4);
    assert_eq!(ThreadChannelSocket::received_size(3, 4), 3);
}

#[test]
fn sockets_are_polled_in_turn() {
    let mut poller = SocketOrchestrator::new(3);
    assert_eq!(poller.socket_count(), 3);
    let mut firsts = Vec::new();
    for _ in 0..3 {
        poller.start();
        let round: Vec<usize> = std::iter::from_fn(|| poller.poll()).collect();
        let mut sorted = round.clone();
        sorted.sort();
        assert_eq!(sorted, [0, 1, 2]);
        firsts.push(round[0]);
    }
    assert_eq!(SocketOrchestrator::new(0).poll(), None);
    assert_eq!(firsts.len(), 3);
}

#[test]
fn worker_events_become_packets_or_errors() {
    let names = vec!["udp".to_owned()];
    let packet = |size: usize, payload: Vec<u8>| {
        PoolOutcome::Event(SocketWorkerEvent::Packet {
            socket_id: 4,
            meta: SocketPacketMeta {
                pid: Some(A),
                token: 2,
                time_ns: 3,
                size,
            },
            payload,
        })
    };
    let taken = on_event(packet(2, vec![1, 2, 3]), &names, 8).unwrap().unwrap();
    assert_eq!(taken.bytes, [1, 2]);
    assert_eq!((taken.meta.socket_id, taken.meta.pid), (4, Some(A)));
    assert_eq!((taken.meta.token, taken.meta.time_ns, taken.meta.size), (2, 3, 2));
    let whole = on_event(packet(9, vec![1, 2, 3]), &names, 8).unwrap().unwrap();
    assert_eq!(whole.meta.size, 3);
    let error = |outcome: PoolOutcome| on_event(outcome, &names, 8).unwrap_err();
    assert_eq!(error(packet(9, vec![0; 9])), "Recv buffer too small: 9 > 8");
    assert_eq!(
        error(PoolOutcome::Event(SocketWorkerEvent::Error {
            socket_id: 0,
            error: "x".to_owned(),
        })),
        "Socket worker 0 (udp) error: x"
    );
    assert_eq!(
        error(PoolOutcome::Event(SocketWorkerEvent::Closed { socket_id: 3 })),
        "Socket worker 3 closed"
    );
    assert!(on_event(PoolOutcome::Timeout, &names, 8).unwrap().is_none());
    assert_eq!(error(PoolOutcome::Disconnected), "Socket worker channel disconnected");
}

#[test]
fn requests_are_checked_and_their_errors_worded() {
    assert!(check_socket(0, 1, false).is_ok());
    assert_eq!(check_socket(1, 1, false), Err("Socket index 1 out of range".to_owned()));
    assert_eq!(
        check_socket(1, 1, true),
        Err("Socket worker index 1 out of range".to_owned())
    );
    assert_eq!(
        request_error(SocketRequest::Send, 2, "udp", "x"),
        "Unable to send on socket 2 (udp): x"
    );
    assert_eq!(
        request_error(SocketRequest::UpdateMap, 2, "udp", "x"),
        "Unable to update socket 2 (udp) map: x"
    );
}

#[test]
fn socket_workers_wait_only_when_idle() {
    let mut worker = SocketWorker::new(3);
    let update = SocketWorkerCommand::UpdateMap { id: A, token: 1 };
    assert!(matches!(
        worker.on_queue(QueueOutcome::Command(update)),
        WorkerStep::Perform(SocketWorkerCommand::UpdateMap { id: A, token: 1 })
    ));
    assert!(matches!(worker.on_performed(Ok(())), WorkerStep::Next));
    match worker.on_performed(Err("x".to_owned())) {
        WorkerStep::Report(SocketWorkerEvent::Error { socket_id, error }) => {
            assert_eq!((socket_id, error.as_str()), (3, "x"));
        }
        other => panic!("{other:?}"),
    }
    assert!(worker.on_opened(Ok(())).is_none());
    match worker.on_opened(Err("y".to_owned())) {
        Some([SocketWorkerEvent::Error { socket_id, error }, last]) => {
            assert_eq!((socket_id, error.as_str()), (3, "y"));
            assert!(matches!(last, SocketWorkerEvent::Closed { socket_id: 3 }));
        }
        other => panic!("{other:?}"),
    }
    assert!(matches!(worker.on_reported(true), WorkerStep::Next));
    assert!(matches!(worker.on_reported(false), WorkerStep::Close));
    assert!(matches!(
        worker.on_queue(QueueOutcome::Empty),
        WorkerStep::Receive { wait: false }
    ));
    assert!(matches!(
        worker.on_queue(QueueOutcome::Empty),
        WorkerStep::Receive { wait: true }
    ));
    let close = QueueOutcome::Command(SocketWorkerCommand::Close);
    assert!(matches!(worker.on_queue(close), WorkerStep::Close));
    assert!(matches!(worker.on_queue(QueueOutcome::Disconnected), WorkerStep::Close));
    assert!(matches!(worker.closed(), SocketWorkerEvent::Closed { socket_id: 3 }));
    assert_eq!(thread_name(3), "socket-worker-3");
}

#[test]
fn socket_workers_report_what_came_in() {
    let worker = SocketWorker::new(3);
    let meta = SocketPacketMeta {
        pid: None,
        token: 0,
        time_ns: 1,
        size: 2,
    };
    match worker.on_received(Some((meta, vec![7, 8, 0, 0]))) {
        WorkerStep::Report(SocketWorkerEvent::Packet {
            socket_id,
            meta: told,
            payload,
        }) => {
            assert_eq!(socket_id, 3);
            assert_eq!(told, meta);
            assert_eq!(payload, [7, 8]);
        }
        other => panic!("{other:?}"),
    }
    assert!(matches!(worker.on_received(None), WorkerStep::Next));
}
