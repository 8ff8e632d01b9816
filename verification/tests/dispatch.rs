use adb_client::dispatched::{DispatchedADBMessageDevice, RemovalStep};
use adb_client::dispatcher::{Delivery, TransportDispatcher};
use adb_client::error::RustADBError;
use adb_client::forward::{ForwardConnection, LocalEvent, Relay};
use adb_client::message::{
    ADBTransportMessage, ADBTransportMessageHeader, MessageCommand,
};
use adb_client::operation::Operation;
use adb_client::reverse_relay::{RelayAction, ReverseRelay};
use adb_client::service::{Action, Step};

fn message(command: MessageCommand, arg0: u32, arg1: u32, payload: &[u8]) -> ADBTransportMessage {
    ADBTransportMessage::try_new(command, arg0, arg1, payload).unwrap()
}

fn sent(step: &Step) -> Vec<(MessageCommand, Vec<u8>)> {
    step.actions
        .iter()
        .filter_map(|action| match action {
            Action::Send(packet) | Action::TrySend(packet) => {
                Some((packet.header().command(), packet.payload().to_vec()))
            }
            Action::Output(_) => None,
        })
        .collect()
}

fn put_out(step: &Step) -> Vec<u8> {
    step.actions
        .iter()
        .filter_map(|action| match action {
            Action::Output(bytes) => Some(bytes.clone()),
            _ => None,
        })
        .flatten()
        .collect()
}

#[test]
fn routes_packets_by_host_local_id_and_separates_device_open() {
    let mut dispatcher = TransportDispatcher::start();
    dispatcher.register(41).unwrap();
    dispatcher.register(42).unwrap();
    dispatcher.on_packet(message(MessageCommand::Write, 700, 41, b"one"));
    dispatcher.on_packet(message(MessageCommand::Write, 701, 42, b"two"));
    let open =
        dispatcher.on_packet(message(MessageCommand::Open, 702, 0, b"localabstract:scrcpy"));
    assert_eq!(dispatcher.receive(41).unwrap().unwrap().payload(), b"one");
    assert_eq!(dispatcher.receive(42).unwrap().unwrap().payload(), b"two");
    match open {
        Delivery::Refused { reply, packet } => {
            assert_eq!(packet.header().arg0(), 702);
            assert_eq!(reply.header().command(), MessageCommand::Clse);
        }
        other => panic!("{other:?}"),
    }
}

#[test]
fn reverse_relays_video_and_obeys_control_write_acknowledgements() {
    let local = "tcp:27183".to_owned();
    let mut dispatcher = TransportDispatcher::start();
    dispatcher
        .set_route("localabstract:scrcpy_test", Some(local.clone()))
        .unwrap();
    let (id, port) =
        match dispatcher.on_packet(message(MessageCommand::Open, 99, 0, local.as_bytes())) {
            Delivery::Relay { local_id, remote_id, port } => {
                assert_eq!(remote_id, 99);
                (local_id, port)
            }
            other => panic!("{other:?}"),
        };
    assert_eq!(port, 27183);
    let (mut relay, okay) = Relay::connected(id, 99);
    assert_eq!(sent(&okay), [(MessageCommand::Okay, Vec::new())]);
    dispatcher.on_packet(message(MessageCommand::Write, 99, id, b"frame"));
    let frame = dispatcher.receive(id).unwrap().unwrap();
    let step = relay.on_packet(&frame);
    assert_eq!(put_out(&step), b"frame");
    assert_eq!(sent(&step), [(MessageCommand::Okay, Vec::new())]);
    let step = relay.on_local(LocalEvent::Data(b"tap".to_vec()));
    assert_eq!(sent(&step), [(MessageCommand::Write, b"tap".to_vec())]);
    assert!(relay.pending);
    dispatcher.on_packet(message(MessageCommand::Okay, 99, id, &[]));
    let okay = dispatcher.receive(id).unwrap().unwrap();
    assert!(sent(&relay.on_packet(&okay)).is_empty());
    let step = relay.on_local(LocalEvent::Data(b"swipe".to_vec()));
    assert_eq!(sent(&step), [(MessageCommand::Write, b"swipe".to_vec())]);
    // Another shell session can progress while relay control waits for ACK.
    dispatcher.register(123).unwrap();
    dispatcher.on_packet(message(MessageCommand::Write, 88, 123, b"model"));
    assert_eq!(dispatcher.receive(123).unwrap().unwrap().payload(), b"model");
    dispatcher.on_packet(message(MessageCommand::Clse, 99, id, &[]));
    let close = dispatcher.receive(id).unwrap().unwrap();
    let step = relay.on_packet(&close);
    assert_eq!(sent(&step), [(MessageCommand::Clse, Vec::new())]);
    assert!(matches!(step.outcome, Some(Ok(()))));
}

#[test]
fn forward_readiness_conflicts_and_removal() {
    let mut device = DispatchedADBMessageDevice::new();
    let local = "tcp:41873".to_owned();
    assert_eq!(device.serve_forward(&local).unwrap(), 41873);
    assert!(device.forward_routes().is_empty());
    let ticket = device.forward_bound(&local, "tcp:80").unwrap();
    assert!(device.serve_forward(&local).is_err());
    assert!(device.forward_bound(&local, "tcp:81").is_err());
    assert_eq!(
        device.forward_routes(),
        vec![(local.clone(), "tcp:80".to_owned())]
    );
    assert!(!device.forward_stopped(&local, ticket));
    assert!(device.remove_forward(&local));
    assert!(device.forward_stopped(&local, ticket));
    device.forward_ended(&local, ticket);
    assert!(device.forward_routes().is_empty());
    let later = device.forward_bound(&local, "tcp:82").unwrap();
    assert!(device.forward_stopped(&local, ticket));
    assert!(!device.forward_stopped(&local, later));
    device.forward_ended(&local, ticket);
    assert_eq!(device.remove_all_forwards(), 1);
    assert!(device.forward_stopped(&local, later));
    assert!(!device.remove_forward(&local));
}

#[test]
fn forwarding_rules_need_a_free_port() {
    let device = DispatchedADBMessageDevice::new();
    let error = |local: &str| format!("{:?}", device.serve_forward(local).unwrap_err());
    assert!(error("localabstract:x").contains("forward requires tcp:<port>"));
    assert!(error("tcp:0").contains("forward requires an unused nonzero TCP port"));
}

#[test]
fn a_stopped_transport_wakes_every_session() {
    let mut dispatcher = TransportDispatcher::start();
    dispatcher.register(7).unwrap();
    assert!(dispatcher.on_error(&RustADBError::TimedOut("nothing came".to_owned())));
    assert!(dispatcher.is_alive());
    assert!(dispatcher.receive(7).unwrap().is_none());
    assert!(!dispatcher.on_error(&RustADBError::UnexpectedEof("unplugged".to_owned())));
    assert!(!dispatcher.is_alive());
    let close = dispatcher.receive(7).unwrap().unwrap();
    assert_eq!(close.header().command(), MessageCommand::Clse);
    assert_eq!(close.header().arg1(), 7);
    assert!(dispatcher.receive(7).is_err());
    assert!(dispatcher.check_write().is_err());
    assert!(dispatcher.register(8).is_err());
    assert!(dispatcher.routes().is_err());
}

#[test]
fn packets_of_unknown_sessions_are_discarded() {
    let mut dispatcher = TransportDispatcher::start();
    assert!(matches!(
        dispatcher.on_packet(message(MessageCommand::Write, 1, 9, b"x")),
        Delivery::Discarded(9)
    ));
    assert!(dispatcher.receive(9).is_err());
    dispatcher.register(9).unwrap();
    dispatcher.on_packet(message(MessageCommand::Write, 1, 9, b"x"));
    dispatcher.register(9).unwrap();
    assert!(dispatcher.receive(9).unwrap().is_none());
    dispatcher.unregister(9);
    assert!(matches!(
        dispatcher.on_packet(message(MessageCommand::Okay, 1, 9, &[])),
        Delivery::Discarded(9)
    ));
}

fn opened(
    device: &mut DispatchedADBMessageDevice,
    begun: (Operation, ADBTransportMessage),
) -> (Operation, u32, Vec<u8>) {
    let (operation, open) = begun;
    assert_eq!(open.header().command(), MessageCommand::Open);
    let id = open.header().arg0();
    assert_eq!(operation.local_id(), id);
    device.on_packet(message(MessageCommand::Okay, 500, id, &[]));
    (operation, id, open.payload().to_vec())
}

#[test]
fn a_shell_command_puts_its_output_out_and_reports_its_status() {
    let mut device = DispatchedADBMessageDevice::new();
    let begun = device.shell_command("ls /").unwrap();
    let (operation, id, destination) = opened(&mut device, begun);
    assert_eq!(destination, b"shell,v2:ls /\0");
    let okay = device.receive(id).unwrap().unwrap();
    let (operation, _) = operation.on_packet(&okay);
    let mut stream = vec![1, 4, 0, 0, 0];
    stream.extend_from_slice(b"data");
    stream.extend_from_slice(&[3, 1, 0, 0, 0, 0]);
    let (operation, step) = operation.on_packet(&message(MessageCommand::Write, 500, id, &stream[..7]));
    assert_eq!(put_out(&step), b"");
    let (_, step) = operation.on_packet(&message(MessageCommand::Write, 500, id, &stream[7..]));
    assert_eq!(put_out(&step), b"data");
    assert!(matches!(step.outcome, Some(Ok(()))));
    device.close(id);
    assert!(device.receive(id).is_err());
}

#[test]
fn a_shell_command_that_fails_reports_its_diagnostics() {
    let mut device = DispatchedADBMessageDevice::new();
    let begun = device.shell_command("false").unwrap();
    let (operation, id, _) = opened(&mut device, begun);
    let okay = device.receive(id).unwrap().unwrap();
    let (operation, _) = operation.on_packet(&okay);
    let (_, step) = operation.on_packet(&message(MessageCommand::Write, 500, id, &[3, 1, 0, 0, 0, 1]));
    assert!(matches!(step.outcome, Some(Err(_))));
}

#[test]
fn a_file_is_downloaded_and_uploaded() {
    let mut device = DispatchedADBMessageDevice::new();
    let begun = device.pull("/sdcard/a").unwrap();
    let (operation, id, destination) = opened(&mut device, begun);
    assert_eq!(destination, b"sync:\0");
    let okay = device.receive(id).unwrap().unwrap();
    let (operation, step) = operation.on_packet(&okay);
    let mut request = b"RECV\x09\0\0\0".to_vec();
    request.extend_from_slice(b"/sdcard/a");
    assert_eq!(sent(&step), [(MessageCommand::Write, request)]);
    let (operation, _) = operation.on_packet(&message(MessageCommand::Okay, 500, id, &[]));
    let (operation, step) =
        operation.on_packet(&message(MessageCommand::Write, 500, id, b"DATA\x03\0\0\0abcDO"));
    assert_eq!(put_out(&step), b"abc");
    assert!(step.outcome.is_none());
    let (_, step) = operation.on_packet(&message(MessageCommand::Write, 500, id, b"NE\0\0\0\0"));
    assert!(matches!(step.outcome, Some(Ok(()))));

    let begun = device.push("/sdcard/b").unwrap();
    let (operation, id, _) = opened(&mut device, begun);
    let okay = device.receive(id).unwrap().unwrap();
    let (operation, step) = operation.on_packet(&okay);
    assert!(sent(&step)[0].1.starts_with(b"SEND"));
    let (operation, _) = operation.on_packet(&message(MessageCommand::Okay, 500, id, &[]));
    assert!(operation.wants_input());
    let (operation, step) = operation.on_input(b"xyz");
    assert_eq!(sent(&step)[0].1, b"DATA\x03\0\0\0xyz");
    let (operation, _) = operation.on_packet(&message(MessageCommand::Okay, 500, id, &[]));
    let (operation, step) = operation.on_input(b"");
    assert!(sent(&step)[0].1.starts_with(b"DONE"));
    let (operation, _) = operation.on_packet(&message(MessageCommand::Okay, 500, id, &[]));
    let (_, step) = operation.on_packet(&message(MessageCommand::Write, 500, id, b"OKAY\0\0\0\0"));
    assert!(matches!(step.outcome, Some(Ok(()))));
}

#[test]
fn a_download_that_cannot_be_put_out_closes_its_stream() {
    let failed = || RustADBError::ADBRequestFailed("disk full".to_owned());
    let mut device = DispatchedADBMessageDevice::new();
    let begun = device.pull("/sdcard/a").unwrap();
    let (operation, id, _) = opened(&mut device, begun);
    let okay = device.receive(id).unwrap().unwrap();
    let (operation, _) = operation.on_packet(&okay);
    let (operation, _) = operation.on_packet(&message(MessageCommand::Okay, 500, id, &[]));
    let (operation, step) =
        operation.on_packet(&message(MessageCommand::Write, 500, id, b"DATA\x03\0\0\0abc"));
    assert_eq!(put_out(&step), b"abc");
    let (_, step) = operation.on_failed(failed());
    assert_eq!(sent(&step), [(MessageCommand::Clse, vec![])]);
    assert!(matches!(
        step.outcome,
        Some(Err(RustADBError::ADBRequestFailed(error))) if error == "disk full"
    ));

    let begun = device.shell_command("ls").unwrap();
    let (operation, id, _) = opened(&mut device, begun);
    let okay = device.receive(id).unwrap().unwrap();
    let (operation, _) = operation.on_packet(&okay);
    let (_, step) = operation.on_failed(failed());
    assert!(sent(&step).is_empty());
    assert!(matches!(
        step.outcome,
        Some(Err(RustADBError::ADBRequestFailed(error))) if error == "disk full"
    ));
}

#[test]
fn a_reverse_route_is_there_before_the_device_answers() {
    let mut device = DispatchedADBMessageDevice::new();
    let (_, open) = device
        .reverse_forward("localabstract:scrcpy", "tcp:27183")
        .unwrap();
    assert_eq!(
        open.payload(),
        b"reverse:forward:localabstract:scrcpy;tcp:27183\0"
    );
    assert_eq!(
        device.reverse_routes().unwrap(),
        vec![("localabstract:scrcpy".to_owned(), "tcp:27183".to_owned())]
    );
    device.reverse_forward_done("localabstract:scrcpy", true);
    assert_eq!(device.reverse_routes().unwrap().len(), 1);
    let (_, open) = device.remove_reverse_forward("localabstract:scrcpy").unwrap();
    assert_eq!(open.payload(), b"reverse:killforward:localabstract:scrcpy\0");
    device.remove_reverse_forward_done("localabstract:scrcpy").unwrap();
    assert!(device.reverse_routes().unwrap().is_empty());
    device.reverse_forward("localabstract:x", "tcp:1").unwrap();
    device.reverse_forward_done("localabstract:x", false);
    assert!(device.reverse_routes().unwrap().is_empty());
    assert!(device.reverse_forward("localabstract:x", "tcp:0").is_err());
    assert!(device.reverse_forward("localabstract:x", "x").is_err());
    assert!(device.is_alive());
}

#[test]
fn removing_every_route_stops_at_the_first_refusal() {
    let mut device = DispatchedADBMessageDevice::new();
    for name in ["localabstract:a", "localabstract:b", "localabstract:c"] {
        device.reverse_forward(name, "tcp:1").unwrap();
        device.reverse_forward_done(name, true);
    }
    let RemovalStep::Ask(removal) = device.remove_all_reverse_routes() else {
        panic!("nothing to remove");
    };
    let first = removal.remote().to_owned();
    let RemovalStep::Ask(removal) = device.route_removed(removal, Ok(())) else {
        panic!("over too early");
    };
    let second = removal.remote().to_owned();
    assert_ne!(first, second);
    let refusal = Err(RustADBError::ADBRequestFailed("reverse failed: no".to_owned()));
    match device.route_removed(removal, refusal) {
        RemovalStep::Finish(Err(RustADBError::ADBRequestFailed(text))) => {
            assert_eq!(text, "reverse failed: no");
        }
        other => panic!("{other:?}"),
    }
    let left: Vec<String> =
        device.reverse_routes().unwrap().into_iter().map(|(remote, _)| remote).collect();
    assert_eq!(left.len(), 2);
    assert!(left.contains(&second));
    assert!(!left.contains(&first));
    let RemovalStep::Ask(removal) = device.remove_all_reverse_routes() else {
        panic!("nothing to remove");
    };
    let RemovalStep::Ask(removal) = device.route_removed(removal, Ok(())) else {
        panic!("over too early");
    };
    assert!(matches!(device.route_removed(removal, Ok(())), RemovalStep::Finish(Ok(()))));
    assert!(device.reverse_routes().unwrap().is_empty());
    device.on_error(&RustADBError::NotConnected("gone".to_owned()));
    assert!(matches!(device.remove_all_reverse_routes(), RemovalStep::Finish(Err(_))));
}

#[test]
fn a_route_follows_the_answer_of_the_device() {
    for (answer, listed) in [(&b"OKAYOKAY"[..], true), (&b"FAIL"[..], false)] {
        let mut device = DispatchedADBMessageDevice::new();
        let (operation, open) = device.reverse_forward("localabstract:x", "tcp:7").unwrap();
        let id = open.header().arg0();
        let (operation, _) = operation.on_packet(&message(MessageCommand::Okay, 50, id, &[]));
        let (operation, step) =
            operation.on_packet(&message(MessageCommand::Write, 50, id, answer));
        assert!(step.outcome.is_none());
        let (_, step) = operation.on_packet(&message(MessageCommand::Clse, 50, id, &[]));
        let outcome = step.outcome.unwrap();
        assert_eq!(outcome.is_ok(), listed);
        device.reverse_forward_done("localabstract:x", outcome.is_ok());
        assert_eq!(device.reverse_routes().unwrap().len(), usize::from(listed));
    }
}

#[test]
fn a_relay_fails_where_its_host_end_fails() {
    let broken = || RustADBError::NotConnected("reset".to_owned());
    assert!(!broken().timed_out());
    assert!(RustADBError::TimedOut("late".to_owned()).timed_out());
    let (mut relay, _) = Relay::connected(3, 9);
    let step = relay.on_local(LocalEvent::Failed(broken()));
    assert_eq!(step.actions.len(), 1);
    assert!(matches!(
        step.outcome,
        Some(Err(RustADBError::NotConnected(text))) if text == "reset"
    ));
    let mut connection = ForwardConnection::new(5);
    connection.on_packet(&message(MessageCommand::Okay, 600, 5, &[]));
    let step = connection.on_local(LocalEvent::Failed(broken()));
    assert_eq!(step.actions.len(), 1);
    assert!(matches!(step.outcome, Some(Ok(()))));
    assert!(DispatchedADBMessageDevice::new().has_ticket());
}

#[test]
fn packets_carry_the_header_that_describes_them() {
    let (mut relay, _) = Relay::connected(3, 9);
    let step = relay.on_local(LocalEvent::Data(b"tap".to_vec()));
    match &step.actions[0] {
        Action::Send(packet) => {
            assert_eq!(packet.header().data_length, 3);
            assert_eq!(packet.header().data_crc32, 325);
            assert_eq!(packet.header().magic, MessageCommand::Write.code() ^ 0xffff_ffff);
        }
        other => panic!("{other:?}"),
    }
}

#[test]
fn the_services_of_a_device_have_their_destinations() {
    let mut device = DispatchedADBMessageDevice::new();
    assert_eq!(device.exec_out("screencap").unwrap().1.payload(), b"exec:screencap\0");
    assert_eq!(device.root().unwrap().1.payload(), b"root:\0");
    assert_eq!(device.remount().unwrap().1.payload(), b"remount:\0");
    assert_eq!(device.tcpip(5555).unwrap().1.payload(), b"tcpip:5555\0");
    assert!(!device.on_error(&RustADBError::NotConnected("gone".to_owned())));
    assert!(device.root().is_err());
}

#[test]
fn forwarded_connections_keep_one_write_outstanding() {
    let mut device = DispatchedADBMessageDevice::new();
    let (opened, open) = device.open_destination("tcp:80").unwrap();
    assert_eq!(open.payload(), b"tcp:80\0");
    assert_eq!(opened.service.local_id, open.header().arg0());
    let mut rejected = opened;
    let step = rejected.on_packet(&message(MessageCommand::Clse, 600, open.header().arg0(), &[]));
    assert!(matches!(step.outcome, Some(Err(_))));
    let mut connection = ForwardConnection::new(5);
    let step = connection.on_packet(&message(MessageCommand::Okay, 600, 5, &[]));
    assert!(step.outcome.is_none());
    assert!(connection.wants_local());
    let step = connection.on_local(LocalEvent::Data(b"GET".to_vec()));
    assert_eq!(sent(&step), [(MessageCommand::Write, b"GET".to_vec())]);
    assert!(!connection.wants_local());
    let step = connection.on_packet(&message(MessageCommand::Write, 600, 5, b"200"));
    assert_eq!(put_out(&step), b"200");
    connection.on_packet(&message(MessageCommand::Okay, 600, 5, &[]));
    assert!(connection.wants_local());
}

#[test]
fn a_reverse_relay_joins_streams_of_the_device() {
    let mut relay = ReverseRelay::new("localabstract:scrcpy".to_owned(), "tcp:27183").unwrap();
    let action = relay
        .handle_device_message(message(MessageCommand::Open, 9, 0, b"localabstract:scrcpy\0"))
        .unwrap();
    assert!(matches!(action, RelayAction::Connect { device_id: 9, port: 27183 }));
    let okay = relay.accept_as(77, 9);
    assert_eq!((okay.header().arg0(), okay.header().arg1()), (77, 9));
    match relay
        .handle_device_message(message(MessageCommand::Write, 9, 77, b"frame"))
        .unwrap()
    {
        RelayAction::Deliver { local_id, payload, acknowledgement } => {
            assert_eq!(local_id, 77);
            assert_eq!(payload, b"frame");
            assert_eq!(acknowledgement.header().command(), MessageCommand::Okay);
        }
        other => panic!("{other:?}"),
    }
    let data = relay.on_data(77, b"tap").unwrap().unwrap();
    assert_eq!(data.payload(), b"tap");
    assert_eq!(data.header().arg1(), 9);
    assert!(relay.on_data(78, b"tap").unwrap().is_none());
    let close = relay.on_closed(77).unwrap();
    assert_eq!(close.header().command(), MessageCommand::Clse);
    assert!(relay.on_closed(77).is_none());
    let text = |result| match result {
        Err(error) => format!("{error:?}"),
        Ok(action) => format!("{action:?}"),
    };
    assert!(text(relay.handle_device_message(message(MessageCommand::Write, 9, 77, b"x")))
        .contains("write for unknown reverse stream"));
    relay.accept_as(77, 9);
    assert!(text(relay.handle_device_message(message(MessageCommand::Write, 8, 77, b"x")))
        .contains("reverse stream id mismatch"));
    assert!(text(relay.handle_device_message(message(MessageCommand::Open, 8, 0, b"other")))
        .contains("device requested non-configured reverse destination other"));
    assert!(text(relay.handle_device_message(message(MessageCommand::Cnxn, 8, 0, b"")))
        .contains("unexpected CNXN while serving reverse relay"));
    assert!(matches!(
        relay.handle_device_message(message(MessageCommand::Okay, 9, 77, b"")).unwrap(),
        RelayAction::Nothing
    ));
    assert!(matches!(
        relay.handle_device_message(message(MessageCommand::Clse, 9, 77, b"")).unwrap(),
        RelayAction::Close { local_id: 77, .. }
    ));
    let (id, okay) = relay.accept(11);
    assert_eq!(okay.header().arg0(), id);
    assert_eq!(okay.header().arg1(), 11);
    assert!(format!("{:?}", ReverseRelay::new("r".to_owned(), "unix:x").unwrap_err())
        .contains("reverse relay needs tcp:<port>, got unix:x"));
    assert!(format!("{:?}", ReverseRelay::new("r".to_owned(), "tcp:x").unwrap_err())
        .contains("invalid reverse TCP port: invalid digit found in string"));
}

#[test]
fn packets_are_checked() {
    let packet = message(MessageCommand::Write, 1, 2, b"abc");
    assert_eq!(packet.header().data_crc32, 294);
    assert_eq!(packet.header().magic, 0x4554_5257 ^ 0xffff_ffff);
    let bytes = packet.header().as_bytes();
    assert_eq!(&bytes[..4], b"WRTE");
    let header = ADBTransportMessageHeader::parse(&bytes).unwrap();
    assert_eq!(&header, packet.header());
    assert!(ADBTransportMessage::from_header_and_payload(header, b"abd".to_vec()).is_err());
    assert!(ADBTransportMessageHeader::parse(&[0; 24]).is_err());
}
