use monhop_transport::addr::{Ipv4Addr, SocketAddrV4};
use monhop_transport::guarded_endpoint::socket::{
    judge_sent, judge_writable, next_poll, Arrival, Departure, GuardedSocket, NextPoll, Polled,
    ReceiveStart, Received, Revocation, SendOutcome, SendPlan, SourceAddress, Writable,
    MAX_DATAGRAM_BYTES, RECEIVE_BUDGET,
};
use monhop_transport::guarded_endpoint::{
    check_active, judge_dial, wait_idle_or_revoked, DialVerdict, Dialed, NetworkSelection,
};
use monhop_transport::io_error::{Cause, ErrorKind, IoError};
use monhop_transport::policy::{InterfaceKind, InterfaceSnapshot, NetworkLock, RouteSnapshot};
use std::collections::VecDeque;

const INDEX: u32 = 7;

fn local() -> SocketAddrV4 {
    SocketAddrV4::new(Ipv4Addr::new(192, 168, 50, 10), 24800)
}

fn peer() -> SocketAddrV4 {
    SocketAddrV4::new(Ipv4Addr::new(192, 168, 50, 12), 24800)
}

/// A socket over a queue of arrivals, which counts what it asks of the system.
struct Fixture {
    socket: GuardedSocket,
    queue: VecDeque<Result<Arrival, ErrorKind>>,
    receives: usize,
    sends: usize,
    wakes: usize,
    revoked: bool,
    blocked: bool,
    partial_send: bool,
    revoke_on_receive: bool,
    revoke_on_send: bool,
}

#[derive(Debug, PartialEq)]
enum Delivery {
    Pending,
    Failed(ErrorKind),
    Delivered(Arrival),
}

impl Fixture {
    fn new() -> Fixture {
        Fixture {
            socket: GuardedSocket {
                local: local(),
                peer: peer(),
                interface_index: INDEX,
            },
            queue: VecDeque::new(),
            receives: 0,
            sends: 0,
            wakes: 0,
            revoked: false,
            blocked: false,
            partial_send: false,
            revoke_on_receive: false,
            revoke_on_send: false,
        }
    }

    fn receive(&mut self) -> Delivery {
        let capacity = match self.socket.start_receive(self.revoked, Some(128)) {
            ReceiveStart::Poll(room) => room,
            ReceiveStart::Fail(error) => return Delivery::Failed(error.kind),
            ReceiveStart::RevokeAndFail(error) => {
                self.revoked = true;
                return Delivery::Failed(error.kind);
            }
        };
        let mut polls = 0;
        loop {
            match next_poll(polls, self.revoked) {
                NextPoll::Poll => {}
                NextPoll::Fail(error) => return Delivery::Failed(error.kind),
                NextPoll::Yield => {
                    self.wakes += 1;
                    return Delivery::Pending;
                }
            }
            polls += 1;
            self.receives += 1;
            if self.revoke_on_receive {
                self.revoked = true;
            }
            let polled = match self.queue.pop_front() {
                None => Polled::Pending,
                Some(Err(kind)) => Polled::Failed(IoError::new(kind, Cause::Kind)),
                Some(Ok(arrival)) => Polled::Arrived(arrival),
            };
            match self.socket.receive(self.revoked, polled, capacity) {
                Received::Pending => return Delivery::Pending,
                Received::Fail(error) => return Delivery::Failed(error.kind),
                Received::RevokeAndFail(error) => {
                    self.revoked = true;
                    return Delivery::Failed(error.kind);
                }
                Received::Deliver(arrival) => return Delivery::Delivered(arrival),
                Received::Skip => {}
            }
        }
    }

    fn try_send(&mut self, datagram: Departure) -> Result<(), ErrorKind> {
        match self.socket.plan_send(self.revoked, datagram) {
            SendPlan::Send => {}
            SendPlan::WouldBlock => return Err(ErrorKind::WouldBlock),
            SendPlan::RevokeAndBlock(_) => {
                self.revoked = true;
                return Err(ErrorKind::WouldBlock);
            }
        }
        self.sends += 1;
        if self.revoke_on_send {
            self.revoked = true;
        }
        let written = if self.blocked {
            Err(ErrorKind::WouldBlock)
        } else if self.partial_send {
            Ok(datagram.length - 1)
        } else {
            Ok(datagram.length)
        };
        match judge_sent(self.revoked, written, datagram.length) {
            SendOutcome::Sent => Ok(()),
            SendOutcome::WouldBlock => Err(ErrorKind::WouldBlock),
            SendOutcome::RevokeAndBlock(_) => {
                self.revoked = true;
                Err(ErrorKind::WouldBlock)
            }
        }
    }
}

fn arrival() -> Arrival {
    Arrival {
        length: 4,
        source: peer(),
        destination: local().ip,
        interface_index: INDEX,
    }
}

fn transmit() -> Departure {
    Departure {
        destination: Some(peer()),
        source: SourceAddress::V4(local().ip),
        is_segmented: false,
        length: 5,
    }
}

#[test]
fn only_exact_peer_destination_and_arrival_interface_reach_quinn() {
    let mut socket = Fixture::new();
    let bad = [
        Arrival {
            source: SocketAddrV4::new(peer().ip, 24801),
            ..arrival()
        },
        Arrival {
            source: SocketAddrV4::new(Ipv4Addr::new(192, 168, 50, 13), 24800),
            ..arrival()
        },
        Arrival {
            destination: Ipv4Addr::new(192, 168, 50, 11),
            ..arrival()
        },
        Arrival {
            interface_index: INDEX + 1,
            ..arrival()
        },
        Arrival {
            length: 0,
            ..arrival()
        },
    ];
    for packet in bad {
        socket.queue.push_back(Ok(packet));
    }
    socket.queue.push_back(Ok(arrival()));
    match socket.receive() {
        Delivery::Delivered(packet) => {
            assert_eq!(packet.source, peer());
            assert_eq!(packet.destination, local().ip);
            assert_eq!(packet.length, 4);
        }
        other => panic!("{:?}", other),
    }
    assert_eq!(socket.receives, 6);
    assert!(!socket.revoked);
}

#[test]
fn unwanted_traffic_has_a_bounded_poll_budget_and_reschedules() {
    let mut socket = Fixture::new();
    for _ in 0..RECEIVE_BUDGET {
        socket.queue.push_back(Ok(Arrival {
            source: local(),
            ..arrival()
        }));
    }
    socket.queue.push_back(Ok(arrival()));
    assert_eq!(socket.receive(), Delivery::Pending);
    assert_eq!(socket.receives, RECEIVE_BUDGET);
    assert_eq!(socket.wakes, 1);
    assert_eq!(socket.receive(), Delivery::Delivered(arrival()));
    assert!(!socket.revoked);
}

#[test]
fn revocation_before_and_during_io_blocks_delivery_and_future_io() {
    let mut socket = Fixture::new();
    socket.revoked = true;
    assert_eq!(
        socket.receive(),
        Delivery::Failed(ErrorKind::ConnectionAborted)
    );
    assert!(socket.try_send(transmit()).is_err());
    assert_eq!(socket.receives, 0);
    assert_eq!(socket.sends, 0);

    let mut socket = Fixture::new();
    socket.queue.push_back(Ok(arrival()));
    socket.revoke_on_receive = true;
    assert_eq!(
        socket.receive(),
        Delivery::Failed(ErrorKind::ConnectionAborted)
    );
    assert!(socket.try_send(transmit()).is_err());
    assert_eq!(socket.sends, 0);

    let mut socket = Fixture::new();
    socket.revoke_on_send = true;
    assert_eq!(
        socket.try_send(transmit()).unwrap_err(),
        ErrorKind::WouldBlock
    );
    assert!(socket.try_send(transmit()).is_err());
    assert_eq!(socket.sends, 1);
}

#[test]
fn native_errors_and_impossible_lengths_revoke_without_retry() {
    for error_kind in [
        ErrorKind::InvalidData,
        ErrorKind::Interrupted,
        ErrorKind::ConnectionReset,
    ] {
        let mut socket = Fixture::new();
        socket.queue.push_back(Err(error_kind));
        assert_eq!(
            socket.receive(),
            Delivery::Failed(if error_kind == ErrorKind::ConnectionReset {
                ErrorKind::ConnectionAborted
            } else {
                error_kind
            })
        );
        assert!(socket.revoked);
        assert_eq!(socket.receives, 1);
    }
    let mut socket = Fixture::new();
    socket.queue.push_back(Ok(Arrival {
        length: MAX_DATAGRAM_BYTES + 1,
        ..arrival()
    }));
    assert_eq!(socket.receive(), Delivery::Failed(ErrorKind::InvalidData));
    assert!(socket.revoked);
}

#[test]
fn sends_cannot_change_peer_source_segmentation_or_bounds() {
    let bad = [
        Departure {
            destination: Some(local()),
            ..transmit()
        },
        Departure {
            destination: None,
            ..transmit()
        },
        Departure {
            source: SourceAddress::V4(Ipv4Addr::new(192, 168, 50, 99)),
            ..transmit()
        },
        Departure {
            is_segmented: true,
            ..transmit()
        },
        Departure {
            length: 0,
            ..transmit()
        },
    ];
    for tx in bad {
        let mut socket = Fixture::new();
        assert_eq!(socket.try_send(tx).unwrap_err(), ErrorKind::WouldBlock);
        assert_eq!(socket.sends, 0);
        assert!(socket.revoked);
    }
    let mut socket = Fixture::new();
    assert!(socket
        .try_send(Departure {
            length: MAX_DATAGRAM_BYTES + 1,
            ..transmit()
        })
        .is_err());
    assert_eq!(socket.sends, 0);

    let mut socket = Fixture::new();
    socket.try_send(transmit()).unwrap();
    socket
        .try_send(Departure {
            source: SourceAddress::Any,
            ..transmit()
        })
        .unwrap();
    assert_eq!(socket.sends, 2);
    socket.partial_send = true;
    assert_eq!(
        socket.try_send(transmit()).unwrap_err(),
        ErrorKind::WouldBlock
    );
    assert!(socket.revoked);
}

#[test]
fn writer_pollers_do_not_replace_revocation_observer_and_can_be_reused() {
    let mut socket = Fixture::new();
    assert_eq!(socket.receive(), Delivery::Pending);
    for _ in 0..3 {
        assert_eq!(
            judge_writable(socket.revoked, Some(Ok(()))),
            Writable::Ready
        );
    }
    socket.blocked = true;
    assert_eq!(
        socket.try_send(transmit()).unwrap_err(),
        ErrorKind::WouldBlock
    );
    assert!(!socket.revoked);
    assert_eq!(
        judge_writable(socket.revoked, None),
        Writable::Pending { keep: true }
    );
    socket.revoked = true;
    assert_eq!(
        judge_writable(socket.revoked, None),
        Writable::Pending { keep: false }
    );
}

#[test]
fn a_failed_wait_for_room_revokes_and_waits() {
    assert_eq!(
        judge_writable(false, Some(Err(ErrorKind::NetworkDown))),
        Writable::RevokeAndPend(ErrorKind::NetworkDown)
    );
}

#[test]
fn a_send_failure_names_its_cause() {
    assert_eq!(
        judge_sent(false, Err(ErrorKind::NetworkDown), 5),
        SendOutcome::RevokeAndBlock(Revocation::Failed(ErrorKind::NetworkDown))
    );
    assert_eq!(
        judge_sent(false, Ok(4), 5),
        SendOutcome::RevokeAndBlock(Revocation::ShortWrite)
    );
}

#[test]
fn receiving_needs_room() {
    let socket = Fixture::new().socket;
    assert_eq!(
        socket.start_receive(false, None),
        ReceiveStart::RevokeAndFail(IoError::new(
            ErrorKind::InvalidInput,
            Cause::MissingBuffer
        ))
    );
    assert_eq!(
        socket.start_receive(false, Some(0)),
        ReceiveStart::RevokeAndFail(IoError::new(ErrorKind::InvalidInput, Cause::EmptyBuffer))
    );
    assert_eq!(
        socket.start_receive(false, Some(100_000)),
        ReceiveStart::Poll(MAX_DATAGRAM_BYTES)
    );
}

fn lock() -> NetworkLock {
    let selected = InterfaceSnapshot {
        stable_id: "physical-adapter-id".to_string(),
        name: "Ethernet".to_string(),
        index: INDEX,
        address: local().ip,
        prefix_len: 24,
        kind: InterfaceKind::Ethernet,
        is_hardware: true,
        is_up: true,
        network_signature: vec![1; 32],
    };
    let route = RouteSnapshot {
        interface_index: INDEX,
        source: local().ip,
        next_hop: Ipv4Addr(0),
    };
    NetworkLock::new(selected, peer().ip, route, false).unwrap()
}

#[test]
fn a_socket_is_pinned_only_to_what_the_lock_allows() {
    let lock = lock();
    let socket = GuardedSocket::new(Ok(local()), &lock, local(), peer(), false).unwrap();
    assert_eq!(socket, Fixture::new().socket);
    assert_eq!(
        GuardedSocket::new(Ok(local()), &lock, local(), peer(), true)
            .unwrap_err()
            .kind,
        ErrorKind::ConnectionAborted
    );
    let other = SocketAddrV4::new(Ipv4Addr::new(192, 168, 50, 13), 24800);
    for (bound, from, to) in [
        (peer(), local(), peer()),
        (local(), local(), other),
        (other, other, peer()),
    ] {
        assert_eq!(
            GuardedSocket::new(Ok(bound), &lock, from, to, false).unwrap_err(),
            IoError::new(ErrorKind::InvalidInput, Cause::UnauthorizedSocket)
        );
    }
    let failure = IoError::new(ErrorKind::Other, Cause::Platform);
    assert_eq!(
        GuardedSocket::new(Err(failure), &lock, local(), peer(), false).unwrap_err(),
        failure
    );
}

#[test]
fn the_bound_address_stays_the_pinned_one() {
    let socket = Fixture::new().socket;
    assert_eq!(socket.local_addr(false, Ok(local())), Ok(local()));
    let (error, revokes) = socket.local_addr(false, Ok(peer())).unwrap_err();
    assert_eq!(error.cause, Cause::BoundAddress);
    assert!(revokes);
    let reset = IoError::new(ErrorKind::ConnectionReset, Cause::Platform);
    let (error, revokes) = socket.local_addr(false, Err(reset)).unwrap_err();
    assert_eq!(error.kind, ErrorKind::ConnectionAborted);
    assert!(revokes);
    let (error, revokes) = socket.local_addr(true, Ok(local())).unwrap_err();
    assert_eq!(error.cause, Cause::Revoked);
    assert!(!revokes);
}

#[test]
fn revocation_releases_drain_without_a_quinn_idle_notification() {
    assert_eq!(wait_idle_or_revoked(false, false), None);
    assert!(wait_idle_or_revoked(false, true).unwrap().is_err());
    assert_eq!(wait_idle_or_revoked(true, false), Some(Ok(())));
}

#[test]
fn a_dial_on_a_stopped_endpoint_revokes_it() {
    assert_eq!(judge_dial(Dialed::Connecting, false), DialVerdict::Proceed);
    assert!(matches!(
        judge_dial(Dialed::Stopping, false),
        DialVerdict::RevokeAndFail(_)
    ));
    assert!(matches!(
        judge_dial(Dialed::Refused, false),
        DialVerdict::Fail(_)
    ));
    assert!(matches!(
        judge_dial(Dialed::Connecting, true),
        DialVerdict::Fail(_)
    ));
    assert!(check_active(false).is_ok());
    assert_eq!(check_active(true).unwrap_err().cause, Cause::Revoked);
}

fn endpoint(text: &str) -> SocketAddrV4 {
    let (ip, port) = text.split_once(':').unwrap();
    SocketAddrV4::new(
        Ipv4Addr::parse(ip.as_bytes()).unwrap(),
        port.parse().unwrap(),
    )
}

#[test]
fn selection_rejects_wildcards_ports_and_nonlocal_addresses_without_native_work() {
    let valid = NetworkSelection {
        stable_id: "physical-adapter".to_string(),
        interface_index: 7,
        local: endpoint("192.168.50.10:24800"),
        peer: endpoint("192.168.50.12:24800"),
    };
    assert!(valid.validate().is_ok());
    for address in [
        "0.0.0.0:24800",
        "127.0.0.1:24800",
        "8.8.8.8:24800",
        "192.168.50.10:0",
    ] {
        let selection = NetworkSelection {
            local: endpoint(address),
            ..valid.clone()
        };
        assert!(selection.validate().is_err());
    }
    for address in [
        "0.0.0.0:24800",
        "127.0.0.1:24800",
        "8.8.8.8:24800",
        "192.168.50.12:0",
        "192.168.50.10:24801",
    ] {
        let selection = NetworkSelection {
            peer: endpoint(address),
            ..valid.clone()
        };
        assert!(selection.validate().is_err());
    }
    assert!(NetworkSelection {
        interface_index: 0,
        ..valid.clone()
    }
    .validate()
    .is_err());
    assert!(NetworkSelection {
        stable_id: String::new(),
        ..valid.clone()
    }
    .validate()
    .is_err());
    let error = NetworkSelection {
        stable_id: "x".repeat(257),
        ..valid
    }
    .validate()
    .unwrap_err();
    assert_eq!(
        error.message(),
        Some("select an exact physical adapter, distinct private IPv4 addresses and nonzero ports")
    );
}
