use adb_client::command::ADBLocalCommand;
use adb_client::dispatched::RemovalStep;
use adb_client::error::RustADBError;
use adb_client::install::{ADBServerDevice, InstallAction, InstallEvent};
use adb_client::message::{ADBTransportMessage, MessageCommand};
use adb_client::message_device::{
    key_step, ADBMessageDevice, ConnectAction, ConnectEvent, KeyStep,
};
use adb_client::tcp::ADBTcpDevice;
use adb_client::usb::{
    find_all_connected_adb_devices, get_single_connected_adb_device, is_adb_device, ADBDeviceInfo,
    ADBUSBDevice, PacketReader, USBTransport, UsbDevice, UsbInterface,
};

fn message(command: MessageCommand, arg0: u32, arg1: u32, payload: &[u8]) -> ADBTransportMessage {
    ADBTransportMessage::try_new(command, arg0, arg1, payload).unwrap()
}

fn phone(product: u16) -> UsbDevice {
    UsbDevice {
        vendor_id: 0x18d1,
        product_id: product,
        serial: Some("S1".to_owned()),
        manufacturer: Some("Google".to_owned()),
        product: Some("Pixel".to_owned()),
        location_id: Some(0x1100000),
        interfaces: vec![
            UsbInterface { class: 6, subclass: 1, protocol: 1 },
            UsbInterface { class: 0xff, subclass: 0x42, protocol: 1 },
        ],
    }
}

fn keyboard() -> UsbDevice {
    UsbDevice {
        vendor_id: 0x05ac,
        product_id: 0x0250,
        serial: None,
        manufacturer: None,
        product: None,
        location_id: None,
        interfaces: vec![UsbInterface { class: 3, subclass: 1, protocol: 1 }],
    }
}

fn told(error: &RustADBError<String>) -> String {
    format!("{error:?}")
}

#[test]
fn devices_with_the_interface_of_the_bridge_are_found() {
    assert!(is_adb_device(&phone(1)));
    assert!(!is_adb_device(&keyboard()));
    let mut nameless = phone(2);
    nameless.manufacturer = None;
    let found = find_all_connected_adb_devices(&[keyboard(), phone(1), nameless]);
    assert_eq!(found.len(), 2);
    assert_eq!(found[0].device_description, "Google Pixel");
    assert_eq!(found[0].serial.as_deref(), Some("S1"));
    assert_eq!(found[0].location_id, Some(0x1100000));
    assert_eq!(found[1].device_description, "Pixel");
    assert_eq!(found[1].product_id, 2);
}

#[test]
fn one_device_is_taken_and_two_are_refused() {
    let one = find_all_connected_adb_devices(&[phone(0x4ee7)]);
    let two = find_all_connected_adb_devices(&[phone(0x4ee7), phone(2)]);
    assert!(get_single_connected_adb_device(&[]).unwrap().is_none());
    let info: ADBDeviceInfo = get_single_connected_adb_device(&one).unwrap().unwrap();
    assert_eq!(info.product_id, 0x4ee7);
    match get_single_connected_adb_device(&two) {
        Err(RustADBError::DeviceNotFound(text)) => assert_eq!(
            text,
            "Found two Android devices 18d1:4ee7 and 18d1:0002"
        ),
        other => panic!("{other:?}"),
    }
}

#[test]
fn transports_need_a_device_with_the_interface() {
    let bus = [keyboard(), phone(7)];
    let transport = USBTransport::new(&bus, 0x18d1, 7).unwrap();
    assert_eq!((transport.vendor_id(), transport.product_id()), (0x18d1, 7));
    assert!(!transport.is_connected());
    assert!(matches!(
        USBTransport::new(&bus, 0x05ac, 0x0250),
        Err(RustADBError::USBDeviceNotFound(0x05ac, 0x0250))
    ));
    assert!(matches!(
        USBTransport::new_from_device(&keyboard()),
        Err(RustADBError::USBNoDescriptorFound)
    ));
}

#[test]
fn a_transport_writes_a_header_and_a_payload() {
    let mut transport = USBTransport::new_from_device(&phone(7)).unwrap();
    assert!(matches!(
        transport.write_message(message(MessageCommand::Write, 1, 2, b"abc")),
        Err(RustADBError::NotConnected(text)) if text == "ADB USB interface is not open"
    ));
    assert!(transport.disconnect().is_none());
    transport.opened();
    let transfers = transport
        .write_message(message(MessageCommand::Write, 1, 2, b"abc"))
        .unwrap();
    assert_eq!(transfers.len(), 2);
    assert_eq!(transfers[0].len(), 24);
    assert_eq!(transfers[1], b"abc");
    assert_eq!(
        transport.write_message(message(MessageCommand::Okay, 1, 2, b"")).unwrap().len(),
        1
    );
    let close = transport.disconnect().unwrap();
    assert_eq!(close.header().command(), MessageCommand::Clse);
    assert!(!transport.is_connected());
}

#[test]
fn statuses_and_timeouts_of_the_bus() {
    assert_eq!(USBTransport::timeout_ms(None), 0);
    assert_eq!(USBTransport::timeout_ms(Some(50)), 50);
    assert_eq!(USBTransport::timeout_ms(Some(u64::MAX)), u32::MAX);
    assert!(matches!(
        USBTransport::iokit_error("read", 0xe000_02d6),
        RustADBError::TimedOut(text) if text == "macOS IOKit USB read timed out"
    ));
    assert!(matches!(
        USBTransport::iokit_error("write", 0xe000_4051),
        RustADBError::TimedOut(_)
    ));
    assert!(matches!(
        USBTransport::iokit_error("open", 0x2c5),
        RustADBError::ADBRequestFailed(text)
            if text == "macOS IOKit USB open failed (0x000002c5)"
    ));
}

#[test]
fn packets_are_read_however_they_arrive() {
    let packet = message(MessageCommand::Write, 1, 2, b"hello");
    let header = packet.header().as_bytes();
    let mut reader = PacketReader::new();
    assert_eq!(reader.wanted(), 24);
    assert!(reader.may_wait());
    assert!(reader.on_bytes(&header[..10]).unwrap().is_none());
    assert_eq!(reader.wanted(), 14);
    assert!(reader.on_bytes(&header[10..]).unwrap().is_none());
    assert_eq!(reader.wanted(), 5);
    assert!(!reader.may_wait());
    assert!(reader.on_bytes(b"he").unwrap().is_none());
    let read = reader.on_bytes(b"llo").unwrap().unwrap();
    assert_eq!(read.payload(), b"hello");
    assert_eq!(read.header().arg1(), 2);
    assert_eq!(reader.wanted(), 24);
    let bare = message(MessageCommand::Okay, 3, 4, b"");
    assert_eq!(
        reader.on_bytes(&bare.header().as_bytes()).unwrap().unwrap().header().command(),
        MessageCommand::Okay
    );
}

#[test]
fn broken_packets_are_refused() {
    let packet = message(MessageCommand::Write, 1, 2, b"hello");
    let mut reader = PacketReader::new();
    assert!(matches!(
        reader.on_bytes(b""),
        Err(RustADBError::UnexpectedEof(text)) if text == "ADB USB interface returned no data"
    ));
    assert!(matches!(
        reader.on_error(RustADBError::TimedOut("late".to_owned()), "late"),
        RustADBError::TimedOut(_)
    ));
    reader.on_bytes(&packet.header().as_bytes()).unwrap();
    assert!(matches!(
        reader.on_error(RustADBError::TimedOut("late".to_owned()), "late"),
        RustADBError::ADBRequestFailed(text) if text == "incomplete USB packet: late"
    ));
    reader.on_bytes(&packet.header().as_bytes()).unwrap();
    assert!(matches!(
        reader.on_bytes(b"hellp"),
        Err(RustADBError::InvalidIntegrity(533, 532))
    ));
    assert!(reader.on_bytes(&[0; 24]).is_err());
}

#[test]
fn a_device_is_connected_without_authentication() {
    let (mut device, action) = ADBMessageDevice::new("/keys/adb".to_owned());
    assert!(matches!(action, ConnectAction::SeekKey));
    assert_eq!(device.private_key_path(), "/keys/adb");
    assert!(matches!(device.on_event(ConnectEvent::Found(true)), ConnectAction::Open));
    match device.on_event(ConnectEvent::Done) {
        ConnectAction::Exchange(packet) => {
            assert_eq!(packet.header().command(), MessageCommand::Cnxn);
            assert_eq!(packet.header().arg0(), 0x0100_0000);
            assert_eq!(packet.payload(), b"host::adb_client\0");
        }
        other => panic!("{other:?}"),
    }
    let ready = device.on_event(ConnectEvent::Packet(message(MessageCommand::Cnxn, 0, 0, b"device::")));
    assert!(matches!(ready, ConnectAction::Ready));
    assert!(device.is_connected());
    let dispatched = device.into_dispatched();
    assert!(dispatched.is_alive());
}

#[test]
fn a_missing_key_is_made_before_the_transport_is_opened() {
    let (mut device, action) = ADBMessageDevice::new("/keys/adb".to_owned());
    assert!(matches!(action, ConnectAction::SeekKey));
    assert!(matches!(device.on_event(ConnectEvent::Found(false)), ConnectAction::MakeKey));
    assert!(matches!(device.on_event(ConnectEvent::Done), ConnectAction::Open));
    assert!(matches!(device.on_event(ConnectEvent::Done), ConnectAction::Exchange(_)));
    assert_eq!(key_step(true), KeyStep::Use);
    assert_eq!(key_step(false), KeyStep::Make);
}

#[test]
fn a_device_is_found_at_its_location() {
    let mut near = phone(7);
    near.location_id = Some(1);
    let mut far = phone(7);
    far.location_id = None;
    let at = |location: u64, bus: &[UsbDevice]| {
        ADBUSBDevice::new_with_custom_private_key_at_location(
            bus,
            0x18d1,
            7,
            location,
            "k".to_owned(),
        )
    };
    let bus = [keyboard(), near];
    assert!(at(1, &bus).is_ok());
    assert!(matches!(at(0, &bus), Err(RustADBError::USBDeviceNotFound(0x18d1, 7))));
    assert!(at(0, &[far]).is_ok());
}

#[test]
fn authentication_alternates_and_ends() {
    let (mut device, _) = ADBMessageDevice::new("/keys/adb".to_owned());
    device.on_event(ConnectEvent::Found(true));
    device.on_event(ConnectEvent::Done);
    let token = || ConnectEvent::Packet(message(MessageCommand::Auth, 1, 0, b"token"));
    for round in 0..8 {
        let action = device.on_event(token());
        let (reply, kind) = if round % 2 == 0 {
            assert!(matches!(action, ConnectAction::Sign(bytes) if bytes == b"token"));
            (b"signature".to_vec(), 2)
        } else {
            assert!(matches!(action, ConnectAction::PublicKey));
            (b"key".to_vec(), 3)
        };
        match device.on_event(ConnectEvent::Bytes(reply)) {
            ConnectAction::ExchangeWithin(packet, 15) => {
                assert_eq!(packet.header().command(), MessageCommand::Auth);
                assert_eq!(packet.header().arg0(), kind);
                if kind == 3 {
                    assert_eq!(packet.payload(), b"key\0");
                }
            }
            other => panic!("{other:?}"),
        }
    }
    match device.on_event(token()) {
        ConnectAction::Fail(error) => {
            assert!(told(&error).contains("Android device did not finish RSA authorization"))
        }
        other => panic!("{other:?}"),
    }
}

#[test]
fn an_encrypted_connection_is_upgraded() {
    let (mut device, _) = ADBTcpDevice::new_with_custom_private_key("/keys/adb".to_owned());
    device.on_event(ConnectEvent::Found(true));
    device.on_event(ConnectEvent::Done);
    match device.on_event(ConnectEvent::Packet(message(MessageCommand::Stls, 0, 0, b""))) {
        ConnectAction::SendAndUpgrade(packet) => {
            assert_eq!(packet.header().command(), MessageCommand::Stls);
            assert_eq!(packet.header().arg0(), 1);
        }
        other => panic!("{other:?}"),
    }
    assert!(matches!(device.on_event(ConnectEvent::Done), ConnectAction::Ready));
    assert!(device.is_connected());
    let mut dispatched = device.into_dispatched();
    assert!(dispatched.is_alive());
    assert_eq!(dispatched.shell_command("ls").unwrap().1.payload(), b"shell,v2:ls\0");
    assert_eq!(dispatched.serve_forward("tcp:9000").unwrap(), 9000);
    dispatched.serve_forward_ready("tcp:9000", "tcp:80").unwrap();
    assert!(dispatched.serve_forward("tcp:9000").is_err());
    assert_eq!(dispatched.forward_routes().len(), 1);
    assert_eq!(dispatched.remove_all_forwards(), 1);
    assert!(!dispatched.shared().on_error(&RustADBError::NotConnected("gone".to_owned())));
    assert!(!dispatched.is_alive());
}

#[test]
fn connections_that_are_refused() {
    let (mut device, _) = ADBTcpDevice::new("/keys/adb".to_owned());
    device.on_event(ConnectEvent::Found(true));
    device.on_event(ConnectEvent::Done);
    match device.on_event(ConnectEvent::Packet(message(MessageCommand::Okay, 0, 0, b""))) {
        ConnectAction::Fail(RustADBError::WrongResponseReceived(expected, got)) => {
            assert_eq!(expected, "Expected CNXN, STLS or AUTH command");
            assert_eq!(got, "OKAY");
        }
        other => panic!("{other:?}"),
    }
    let (mut device, _) = ADBTcpDevice::new("/keys/adb".to_owned());
    device.on_event(ConnectEvent::Found(true));
    device.on_event(ConnectEvent::Done);
    match device.on_event(ConnectEvent::Packet(message(MessageCommand::Auth, 7, 0, b""))) {
        ConnectAction::Fail(error) => {
            assert!(told(&error).contains("Received AUTH message with type != 1 (7)"))
        }
        other => panic!("{other:?}"),
    }
    let (mut device, _) = ADBTcpDevice::new("/keys/adb".to_owned());
    device.on_event(ConnectEvent::Found(true));
    device.on_event(ConnectEvent::Done);
    device.on_event(ConnectEvent::Packet(message(MessageCommand::Auth, 1, 0, b"t")));
    device.on_event(ConnectEvent::Bytes(b"s".to_vec()));
    let greeted = message(MessageCommand::Cnxn, 0, 0, b"\xff");
    assert!(matches!(device.on_event(ConnectEvent::Packet(greeted)), ConnectAction::Ready));
}

#[test]
fn sessions_are_opened_one_at_a_time() {
    let (device, _) = ADBMessageDevice::new("/keys/adb".to_owned());
    let (id, open) = device.open_session(&ADBLocalCommand::Exec("id")).unwrap();
    assert_eq!(open.header().arg0(), id);
    assert_eq!(open.payload(), b"exec:id\0");
    let session = device
        .on_opened(id, &message(MessageCommand::Okay, 33, id, b""))
        .unwrap();
    assert_eq!((session.local_id, session.remote_id), (id, 33));
    let quit = device.end_transaction(&session).unwrap();
    assert_eq!(quit.payload(), b"QUIT\0\0\0\0");
    assert!(told(&device.on_opened(5, &message(MessageCommand::Clse, 0, 5, b"")).unwrap_err())
        .contains("Open session failed: got CLSE in response instead of OKAY"));
    assert!(told(&device.on_opened(5, &message(MessageCommand::Okay, 0, 6, b"")).unwrap_err())
        .contains("Open session failed: responses used 6 for our local_id instead of 5"));
}

#[test]
fn a_device_on_the_bus_is_detected() {
    let bus = [keyboard(), phone(7)];
    let (mut device, action) = ADBUSBDevice::autodetect(&bus, "/keys/adb".to_owned()).unwrap();
    assert!(matches!(action, ConnectAction::SeekKey));
    assert_eq!((device.vendor_id(), device.product_id()), (0x18d1, 7));
    assert_eq!(device.private_key_path(), "/keys/adb");
    assert!(matches!(
        ADBUSBDevice::autodetect(&[keyboard()], "k".to_owned()),
        Err(RustADBError::DeviceNotFound(text))
            if text == "cannot find USB devices matching the signature of an ADB device"
    ));
    assert!(ADBUSBDevice::autodetect_with_custom_private_key(
        &[phone(1), phone(2)],
        "k".to_owned()
    )
    .is_err());
    assert!(ADBUSBDevice::new(&bus, 1, 2, "k".to_owned()).is_err());
    let transport = USBTransport::new_from_device(&phone(9)).unwrap();
    let (other, _) = ADBUSBDevice::new_from_transport(&transport, None, "default".to_owned());
    assert_eq!(other.private_key_path(), "default");
    let (other, _) =
        ADBUSBDevice::new_from_transport(&transport, Some("own".to_owned()), "default".to_owned());
    assert_eq!(other.private_key_path(), "own");
    assert_eq!(
        device.reverse_forward("localabstract:a", "tcp:1").unwrap().1.payload(),
        b"reverse:forward:localabstract:a;tcp:1\0"
    );
    assert_eq!(
        device.remove_reverse_forward("localabstract:a").unwrap().1.payload(),
        b"reverse:killforward:localabstract:a\0"
    );
    assert!(device.run_reverse_relay("localabstract:a".to_owned(), "tcp:1").is_ok());
    assert!(device.run_reverse_relay("localabstract:a".to_owned(), "x").is_err());
    device.on_event(ConnectEvent::Found(true));
    device.on_event(ConnectEvent::Done);
    device.on_event(ConnectEvent::Packet(message(MessageCommand::Cnxn, 0, 0, b"")));
    assert!(device.is_connected());
    let mut dispatched = device.into_dispatched();
    assert_eq!(dispatched.pull("/a").unwrap().1.payload(), b"sync:\0");
    assert_eq!(dispatched.push("/a").unwrap().1.payload(), b"sync:\0");
    assert_eq!(dispatched.root().unwrap().1.payload(), b"root:\0");
    assert_eq!(dispatched.remount().unwrap().1.payload(), b"remount:\0");
    assert!(dispatched.reverse_routes().unwrap().is_empty());
    assert!(matches!(dispatched.remove_all_reverse_routes(), RemovalStep::Finish(Ok(()))));
    dispatched.reverse_forward("localabstract:a", "tcp:1").unwrap();
    let RemovalStep::Ask(removal) = dispatched.remove_all_reverse_routes() else {
        panic!("nothing to remove");
    };
    assert_eq!(removal.remote(), "localabstract:a");
    assert!(matches!(dispatched.route_removed(removal, Ok(())), RemovalStep::Finish(Ok(()))));
    assert!(dispatched.reverse_routes().unwrap().is_empty());
}

#[test]
fn a_package_is_installed_through_the_binder_service() {
    let device = ADBServerDevice { serial: None, transport_id: None };
    let (mut install, action) =
        device.install_with_options(Some("10".to_owned()), vec!["-r".to_owned()]);
    assert!(matches!(action, InstallAction::OpenFile));
    assert!(matches!(install.on_event(InstallEvent::Opened(1234)), InstallAction::SetTransport));
    assert!(matches!(
        install.on_event(InstallEvent::Done),
        InstallAction::AbbExec(arguments)
            if arguments == ["package", "install", "--user", "10", "-r", "-S", "1234"]
    ));
    assert!(matches!(install.on_event(InstallEvent::Done), InstallAction::SendFile));
    assert!(matches!(install.on_event(InstallEvent::Done), InstallAction::ReadAnswer));
    assert!(matches!(
        install.on_event(InstallEvent::Answer(b"Success\n".to_vec())),
        InstallAction::Finish(Ok(()))
    ));
}

#[test]
fn a_package_is_streamed_where_the_binder_service_is_refused() {
    let device = ADBServerDevice { serial: None, transport_id: None };
    let (mut install, _) = device.install(None);
    install.on_event(InstallEvent::Opened(9));
    install.on_event(InstallEvent::Done);
    let refusal = || InstallEvent::Failed(RustADBError::ADBRequestFailed("closed".to_owned()));
    assert!(matches!(install.on_event(refusal()), InstallAction::SetTransport));
    assert!(matches!(
        install.on_event(InstallEvent::Done),
        InstallAction::Install { size: 9, user: None, flags } if flags.is_empty()
    ));
    install.on_event(InstallEvent::Done);
    install.on_event(InstallEvent::Done);
    assert!(matches!(
        install.on_event(InstallEvent::Answer(b"Failure [X]\n".to_vec())),
        InstallAction::Finish(Err(RustADBError::ADBRequestFailed(text))) if text == "Failure [X]\n"
    ));
    let (mut install, _) = device.install(None);
    assert!(matches!(install.on_event(refusal()), InstallAction::Finish(Err(_))));
}
