use adb_client::commands::{
    judge_status, server_command, usb_command, usb_pull_request, usb_push_request,
    usb_shell_request, wireless_command, wireless_forward_command, ForwardPlan, RebootType,
    ServerPlan, UsbPlan, WirelessPlan,
};
use adb_client::daemon::{parse_direct_request, DirectRequest};
use adb_client::endpoints::{saved_addresses, Endpoint, EndpointKey, EndpointSet};
use adb_client::invocation::{
    connected_line, disconnected_line, paired_line, parse_host_command, parse_invocation,
    reported_serial, service_line, version_line, HostCommand, Invocation, Selection, UsbSelector,
};
use adb_client::listing::{
    device_serial, usb_context, usb_device_line, usb_device_path, usb_table_head, usb_table_row,
    usb_transport_id, wireless_device_line, DeviceTracker,
};
use adb_client::control::stable_transport_id;
use adb_client::package::{
    judge_output, wireless_uninstall_command, Installer, PackageAction, PackageEvent,
    PackageInstall,
};
use adb_client::requests::{parse_install_request, parse_uninstall_request};
use adb_client::routing::{
    judge_silent_server, parse_server_mode, server_device, Plan, RouteAction, RouteAsk,
    RouteEvent, Routing, ServerDevice, ServerInfo, ServerMode,
};
use adb_client::usb::ADBDeviceInfo;

fn values(items: &[&str]) -> Vec<String> {
    items.iter().map(|item| (*item).to_owned()).collect()
}

fn info(serial: Option<&str>, location: Option<u64>) -> ADBDeviceInfo {
    ADBDeviceInfo {
        vendor_id: 0x18d1,
        product_id: 0x4ee7,
        serial: serial.map(str::to_owned),
        location_id: location,
        device_description: "Google Pixel".to_owned(),
    }
}

fn selection(serial: Option<&str>, id: Option<u64>) -> Selection {
    Selection {
        serial: serial.map(str::to_owned),
        transport_id: id,
        endpoint: None,
    }
}

fn endpoint(ip: u128, port: u16, text: &str) -> Endpoint {
    Endpoint {
        key: EndpointKey { family: 4, ip, port, flow: 0, scope: 0 },
        text: text.to_owned(),
    }
}

fn finished(action: RouteAsk) -> String {
    match action {
        RouteAction::Finish(Err(error)) => error,
        other => panic!("{other:?}"),
    }
}

#[test]
fn selectors_in_front_of_a_command() {
    let parse = |items: &[&str]| parse_invocation(&values(items), true);
    match parse(&["-s", "a", "-s", "b", "shell", "-t"]).unwrap() {
        Invocation::Run { selection, args } => {
            assert_eq!(selection.serial.as_deref(), Some("b"));
            assert_eq!(selection.transport_id, None);
            assert_eq!(args, ["shell", "-t"]);
        }
        other => panic!("{other:?}"),
    }
    match parse(&["-t", "12", "get-state"]).unwrap() {
        Invocation::Run { selection, .. } => assert_eq!(selection.transport_id, Some(12)),
        other => panic!("{other:?}"),
    }
    assert_eq!(parse(&["-s"]).unwrap_err(), "missing device selector value");
    assert_eq!(
        parse(&["-s", "a", "-t", "1", "x"]).unwrap_err(),
        "only one of -s and -t may be specified"
    );
    assert_eq!(parse(&["-t", "x", "y"]).unwrap_err(), "invalid digit found in string");
    assert!(matches!(
        parse_invocation(&values(&["version"]), false),
        Ok(Invocation::Version)
    ));
    assert_eq!(
        parse_invocation(&values(&["devices"]), false).unwrap_err(),
        "MACANDROIDBRIDGE_ADB_KEY is not set"
    );
    assert!(version_line().starts_with("Android Debug Bridge compatibility (adb_client "));
}

#[test]
fn devices_on_the_bus_are_named_by_options() {
    let parse = |items: &[&str]| parse_invocation(&values(items), true);
    assert!(matches!(parse(&["usb", "--list"]), Ok(Invocation::ListUsb)));
    match parse(&[
        "usb", "--vendor-id", "18d1", "--product-id", "4ee7", "--location-id", "1100000",
        "--private-key", "x", "shell", "ls",
    ])
    .unwrap()
    {
        Invocation::Run { selection, args } => {
            assert_eq!(
                selection.endpoint,
                Some(UsbSelector { vendor: 0x18d1, product: 0x4ee7, location: Some(0x1100000) })
            );
            assert_eq!(args, ["shell", "ls"]);
        }
        other => panic!("{other:?}"),
    }
    assert_eq!(parse(&["usb", "shell"]).unwrap_err(), "missing vendor");
    assert_eq!(parse(&["usb", "--vendor-id", "1", "x"]).unwrap_err(), "missing product");
    assert_eq!(parse(&["usb", "--x", "1"]).unwrap_err(), "unsupported USB option");
    assert_eq!(
        parse(&["usb", "--vendor-id", "18d1f"]).unwrap_err(),
        "number too large to fit in target type"
    );
}

#[test]
fn commands_that_need_no_device() {
    let parse = |items: &[&str]| parse_host_command(&values(items));
    assert!(matches!(
        parse(&["pair", "h:1", "123456"]),
        Ok(Some(HostCommand::Pair(address, code))) if address == "h:1" && code == "123456"
    ));
    assert!(matches!(parse(&["connect", "h:1"]), Ok(Some(HostCommand::Connect(a))) if a == "h:1"));
    assert!(matches!(parse(&["disconnect"]), Ok(Some(HostCommand::Disconnect(None)))));
    assert!(matches!(parse(&["disconnect", "-a"]), Ok(Some(HostCommand::Disconnect(None)))));
    assert!(matches!(
        parse(&["disconnect", "h:1"]),
        Ok(Some(HostCommand::Disconnect(Some(a)))) if a == "h:1"
    ));
    assert!(matches!(parse(&["mdns", "check"]), Ok(Some(HostCommand::MdnsCheck))));
    assert!(matches!(parse(&["mdns", "services"]), Ok(Some(HostCommand::MdnsServices))));
    assert!(matches!(parse(&["shell"]), Ok(None)));
    assert_eq!(parse(&["pair"]).unwrap_err(), "usage: adb pair HOST:PORT PAIRING_CODE");
    assert_eq!(parse(&["connect"]).unwrap_err(), "usage: adb connect HOST:PORT");
    assert_eq!(
        parse(&["disconnect", "a", "b"]).unwrap_err(),
        "usage: adb disconnect [HOST:PORT|-a]"
    );
    assert_eq!(parse(&["mdns"]).unwrap_err(), "usage: adb mdns check|services");
    assert_eq!(paired_line("h:1", "g"), "Successfully paired to h:1 [g]");
    assert_eq!(connected_line("h:1", "S1"), "connected to h:1 (S1)");
    assert_eq!(disconnected_line(&None), "disconnected everything");
    assert_eq!(disconnected_line(&Some("h:1".to_owned())), "disconnected h:1");
    assert_eq!(service_line("adb-x", "10.0.0.2", 5555), "adb-x\\t10.0.0.2:5555");
    assert_eq!(reported_serial(b" S1\n", "h:1").unwrap(), "S1");
    assert_eq!(reported_serial(b"\n", "h:1").unwrap(), "h:1");
    assert!(reported_serial(b"\xff", "h:1").is_err());
}

#[test]
fn saved_addresses_stay_in_order() {
    let mut set = EndpointSet::new();
    set.insert(endpoint(2, 5555, "0.0.0.2:5555"));
    set.insert(endpoint(1, 6000, "0.0.0.1:6000"));
    set.insert(endpoint(1, 5555, "0.0.0.1:5555"));
    set.insert(endpoint(1, 5555, "other"));
    let six = EndpointKey { family: 6, ip: 0, port: 1, flow: 0, scope: 0 };
    set.insert(Endpoint { key: six, text: "[::]:1".to_owned() });
    assert_eq!(set.file(), "0.0.0.1:5555\n0.0.0.1:6000\n0.0.0.2:5555\n[::]:1\n");
    assert!(set.contains(&six));
    set.remove(&six);
    assert!(!set.contains(&six));
    assert_eq!(set.endpoints().len(), 3);
    assert_eq!(
        set.unlisted(&values(&["0.0.0.1:6000"])),
        ["0.0.0.1:5555", "0.0.0.2:5555"]
    );
    let id = stable_transport_id("tcp", "0.0.0.2:5555");
    assert_eq!(set.find_transport(id).unwrap().text, "0.0.0.2:5555");
    assert!(set.find_transport(0).is_none());
    set.clear();
    assert_eq!(set.file(), "");
}

#[test]
fn saved_addresses_are_read_back() {
    let mut set = EndpointSet::new();
    set.insert(endpoint(2, 5555, "0.0.0.2:5555"));
    set.insert(endpoint(1, 6000, "0.0.0.1:6000"));
    let lines = saved_addresses(&set.file());
    assert_eq!(lines, ["0.0.0.1:6000", "0.0.0.2:5555"]);
    assert_eq!(saved_addresses("a\r\nb"), ["a", "b"]);
    let read = vec![
        Ok(endpoint(1, 6000, "0.0.0.1:6000")),
        Ok(endpoint(2, 5555, "0.0.0.2:5555")),
        Ok(endpoint(1, 6000, "again")),
    ];
    assert_eq!(EndpointSet::gather(read).unwrap().file(), set.file());
    let read = vec![
        Ok(endpoint(1, 6000, "0.0.0.1:6000")),
        Err("bad".to_owned()),
        Err("worse".to_owned()),
    ];
    assert_eq!(EndpointSet::gather(read).map(|_| ()).unwrap_err(), "bad");
}

#[test]
fn settings_of_the_server() {
    assert_eq!(parse_server_mode(None).unwrap(), ServerMode::Auto);
    assert_eq!(parse_server_mode(Some("direct")).unwrap(), ServerMode::Direct);
    assert_eq!(parse_server_mode(Some("server")).unwrap(), ServerMode::Server);
    assert_eq!(
        parse_server_mode(Some("x")).unwrap_err(),
        "invalid MACANDROIDBRIDGE_ADB_MODE: x"
    );
    assert!(judge_silent_server(false, "a", "e", false).is_ok());
    assert_eq!(
        judge_silent_server(false, "a", "e", true).unwrap_err(),
        "existing ADB server at a rejected the compatibility request: e"
    );
    assert_eq!(
        judge_silent_server(true, "a", "e", true).unwrap_err(),
        "existing ADB server at a is unavailable: e"
    );
    assert_eq!(server_device(None, Some(7)).unwrap().transport_id, Some(7));
    assert_eq!(
        server_device(None, Some(1 << 32)).unwrap_err(),
        "ADB server transport id exceeds u32"
    );
    assert_eq!(
        server_device(Some("S1".to_owned()), None).unwrap().serial.as_deref(),
        Some("S1")
    );
}

fn server(count: u32) -> Option<ServerInfo> {
    Some(ServerInfo {
        address: "127.0.0.1:5037".to_owned(),
        devices: (1..=count)
            .map(|n| ServerDevice {
                identifier: format!("S{n}"),
                state: "device".to_owned(),
                transport_id: n,
                description: format!("S{n} device usb:1"),
            })
            .collect(),
    })
}

#[test]
fn a_server_gets_the_commands_of_its_device() {
    let (routing, action) = Routing::begin(values(&["shell", "ls"]), selection(None, None));
    assert!(matches!(action, RouteAction::AskServer));
    let (_, action) = routing.on_event(RouteEvent::Server(server(1)));
    assert!(matches!(action, RouteAction::Finish(Ok(Plan::Server))));
    let (routing, _) = Routing::begin(values(&["shell"]), selection(None, None));
    assert_eq!(
        finished(routing.on_event(RouteEvent::Server(server(2))).1),
        "multiple devices connected through ADB server; select one with -s or -t"
    );
    let (routing, _) = Routing::begin(values(&["shell"]), selection(Some("S2"), None));
    let (_, action) = routing.on_event(RouteEvent::Server(server(2)));
    assert!(matches!(action, RouteAction::Finish(Ok(Plan::Server))));
    let (routing, _) = Routing::begin(values(&["shell"]), selection(None, Some(2)));
    let (_, action) = routing.on_event(RouteEvent::Server(server(2)));
    assert!(matches!(action, RouteAction::Finish(Ok(Plan::Server))));
    let (routing, _) = Routing::begin(values(&["devices", "-l"]), selection(None, None));
    match routing.on_event(RouteEvent::Server(server(2))).1 {
        RouteAction::Finish(Ok(Plan::ServerDevices { lines, identifiers })) => {
            assert_eq!(lines[0], "S1 device usb:1 mab_transport:server");
            assert_eq!(identifiers, ["S1", "S2"]);
        }
        other => panic!("{other:?}"),
    }
    let (routing, _) = Routing::begin(values(&["devices"]), selection(None, None));
    match routing.on_event(RouteEvent::Server(server(1))).1 {
        RouteAction::Finish(Ok(Plan::ServerDevices { lines, .. })) => {
            assert_eq!(lines, ["S1\tdevice"])
        }
        other => panic!("{other:?}"),
    }
    let (routing, _) = Routing::begin(values(&["server-status"]), selection(None, None));
    match routing.on_event(RouteEvent::Server(server(0))).1 {
        RouteAction::Finish(Ok(Plan::Print(line))) => {
            assert_eq!(line, "ADB server available at 127.0.0.1:5037")
        }
        other => panic!("{other:?}"),
    }
    let (routing, _) = Routing::begin(values(&["server-status"]), selection(None, None));
    assert_eq!(
        finished(routing.on_event(RouteEvent::Server(None)).1),
        "no compatible ADB server is running"
    );
    let (routing, _) = Routing::begin(values(&["server-status", "x"]), selection(None, None));
    assert_eq!(
        finished(routing.on_event(RouteEvent::Server(None)).1),
        "server-status does not accept arguments"
    );
    let (routing, _) = Routing::begin(values(&["devices", "-x"]), selection(None, None));
    assert_eq!(
        finished(routing.on_event(RouteEvent::Server(server(1))).1),
        "usage: adb devices [-l]"
    );
}

#[test]
fn saved_addresses_get_the_commands_for_them() {
    let (routing, _) = Routing::begin(values(&["shell"]), selection(Some("0.0.0.1:5555"), None));
    let (routing, action) = routing.on_event(RouteEvent::Server(None));
    assert!(matches!(action, RouteAction::AskAddress(text) if text == "0.0.0.1:5555"));
    let (routing, action) =
        routing.on_event(RouteEvent::Address(Some(endpoint(1, 5555, "0.0.0.1:5555"))));
    assert!(matches!(action, RouteAction::AskSaved));
    let mut set = EndpointSet::new();
    set.insert(endpoint(1, 5555, "0.0.0.1:5555"));
    match routing.on_event(RouteEvent::Saved(set)).1 {
        RouteAction::Finish(Ok(Plan::Wireless(found))) => assert_eq!(found.text, "0.0.0.1:5555"),
        other => panic!("{other:?}"),
    }
    let (routing, _) = Routing::begin(values(&["shell"]), selection(Some("0.0.0.1:5555"), None));
    let (routing, _) = routing.on_event(RouteEvent::Server(None));
    let (routing, _) =
        routing.on_event(RouteEvent::Address(Some(endpoint(1, 5555, "0.0.0.1:5555"))));
    assert_eq!(
        finished(routing.on_event(RouteEvent::Saved(EndpointSet::new())).1),
        "selected wireless Android device is not connected; run adb connect HOST:PORT first"
    );
    let id = stable_transport_id("tcp", "0.0.0.1:5555");
    let (routing, _) = Routing::begin(values(&["shell"]), selection(None, Some(id)));
    let (routing, action) = routing.on_event(RouteEvent::Server(None));
    assert!(matches!(action, RouteAction::AskSaved));
    let mut set = EndpointSet::new();
    set.insert(endpoint(1, 5555, "0.0.0.1:5555"));
    let (_, action) = routing.on_event(RouteEvent::Saved(set));
    assert!(matches!(action, RouteAction::Finish(Ok(Plan::Wireless(_)))));
}

#[test]
fn exactly_one_device_on_the_bus_must_fit() {
    let search = |devices: Vec<ADBDeviceInfo>| {
        let (routing, _) = Routing::begin(values(&["shell"]), selection(None, None));
        let (routing, action) = routing.on_event(RouteEvent::Server(None));
        assert!(matches!(action, RouteAction::AskUsb));
        routing.on_event(RouteEvent::Usb(devices)).1
    };
    assert!(matches!(
        search(vec![info(Some("S1"), None)]),
        RouteAction::Finish(Ok(Plan::Usb(device))) if device.serial.as_deref() == Some("S1")
    ));
    assert_eq!(finished(search(vec![])), "selected Android USB device is not connected");
    assert_eq!(
        finished(search(vec![info(None, None), info(None, Some(1))])),
        "multiple matching Android USB devices; select a unique device"
    );
}

#[test]
fn a_device_on_the_bus_is_asked_for_its_serial_number() {
    let (routing, _) = Routing::begin(values(&["shell"]), selection(Some("S2"), None));
    let (routing, _) = routing.on_event(RouteEvent::Server(None));
    let (routing, action) = routing.on_event(RouteEvent::Address(None));
    assert!(matches!(action, RouteAction::AskUsb));
    let devices = vec![info(Some("S1"), Some(1)), info(None, Some(2)), info(None, Some(3))];
    let (routing, action) = routing.on_event(RouteEvent::Usb(devices));
    assert!(matches!(action, RouteAction::AskSerial(0)));
    let (routing, action) = routing.on_event(RouteEvent::Details(Some("S1\nPixel\n".to_owned())));
    assert!(matches!(action, RouteAction::AskSerial(1)));
    let (routing, action) = routing.on_event(RouteEvent::Details(None));
    assert!(matches!(action, RouteAction::AskSerial(2)));
    match routing.on_event(RouteEvent::Details(Some("S2\n".to_owned()))).1 {
        RouteAction::Finish(Ok(Plan::Usb(device))) => assert_eq!(device.location_id, Some(3)),
        other => panic!("{other:?}"),
    }
}

#[test]
fn a_named_device_on_the_bus_is_looked_for_there() {
    let chosen = Selection {
        serial: None,
        transport_id: None,
        endpoint: Some(UsbSelector { vendor: 0x18d1, product: 0x4ee7, location: Some(2) }),
    };
    let (routing, action) = Routing::begin(values(&["get-state"]), chosen);
    assert!(matches!(action, RouteAction::AskUsb));
    match routing
        .on_event(RouteEvent::Usb(vec![info(None, Some(1)), info(None, Some(2))]))
        .1
    {
        RouteAction::Finish(Ok(Plan::Usb(device))) => assert_eq!(device.location_id, Some(2)),
        other => panic!("{other:?}"),
    }
    for (args, expected) in [
        (values(&["wait-for-device", "x"]), "wait-for-device does not accept arguments"),
        (values(&["track-devices", "x"]), "track-devices does not accept arguments"),
        (values(&["devices", "-l", "x"]), "usage: adb devices [-l]"),
    ] {
        let (routing, _) = Routing::begin(args, selection(None, None));
        let (routing, _) = routing.on_event(RouteEvent::Server(None));
        assert_eq!(finished(routing.on_event(RouteEvent::Usb(vec![])).1), expected);
    }
    let plan = |args: &[&str]| {
        let (routing, _) = Routing::begin(values(args), selection(None, None));
        let (routing, _) = routing.on_event(RouteEvent::Server(None));
        routing.on_event(RouteEvent::Usb(vec![])).1
    };
    assert!(matches!(plan(&["start-server"]), RouteAction::Finish(Ok(Plan::Nothing))));
    assert!(matches!(plan(&["wait-for-device"]), RouteAction::Finish(Ok(Plan::WaitForDevice))));
    assert!(matches!(plan(&["track-devices"]), RouteAction::Finish(Ok(Plan::TrackDevices))));
    assert!(matches!(plan(&["devices"]), RouteAction::Finish(Ok(Plan::Devices))));
    assert!(matches!(
        plan(&["features"]),
        RouteAction::Finish(Ok(Plan::Print(line))) if line == "shell_v2,cmd,sendrecv_v2"
    ));
}

#[test]
fn lines_that_tell_of_devices() {
    let device = info(Some("S1"), Some(0x1100000));
    assert_eq!(usb_transport_id(&device), stable_transport_id("usb", "0000000001100000"));
    assert_eq!(usb_transport_id(&info(Some("S1"), None)), stable_transport_id("usb", "S1"));
    assert_eq!(usb_transport_id(&info(None, None)), stable_transport_id("usb", "18d1:4ee7"));
    assert_eq!(
        usb_table_row(0, &device),
        "#0\t18d1\t4ee7\t0000000001100000\tGoogle Pixel"
    );
    assert!(usb_table_head().0.starts_with("Index\tVendor ID"));
    assert_eq!(usb_device_path(&device), "usb:18d1:4ee7:0000000001100000");
    assert_eq!(usb_context("/k", &info(None, None)).location, 0);
    assert_eq!(device_serial("S1\nPixel\n"), "S1");
    assert_eq!(device_serial(""), "unknown");
    assert_eq!(
        usb_device_line("S1\nPixel 8\nshiba\n", &device).unwrap(),
        format!(
            "S1\tdevice product:shiba model:Pixel_8 transport_id:{}",
            usb_transport_id(&device)
        )
    );
    assert_eq!(usb_device_line("", &device).unwrap_err(), "missing serial");
    let id = stable_transport_id("tcp", "h:1");
    assert_eq!(
        wireless_device_line("h:1", Some("S1")),
        format!("h:1\tdevice product:wireless model:S1 transport_id:{id}")
    );
    assert_eq!(
        wireless_device_line("h:1", None),
        format!("h:1\toffline transport_id:{id}")
    );
}

#[test]
fn devices_that_come_and_go_are_told_once() {
    let mut tracker = DeviceTracker::new();
    assert_eq!(
        tracker.update(&values(&["b", "a", "b"])),
        ["a\tdevice", "b\tdevice"]
    );
    assert!(tracker.update(&values(&["a", "b"])).is_empty());
    assert_eq!(
        tracker.update(&values(&["c", "b"])),
        ["c\tdevice", "a\toffline"]
    );
    assert_eq!(tracker.update(&[]), ["b\toffline", "c\toffline"]);
}

#[test]
fn commands_on_a_device_on_the_bus() {
    let device = info(None, Some(1));
    let plan = |items: &[&str]| usb_command(&values(items), &device);
    let stream = |items: &[&str]| match plan(items).unwrap() {
        UsbPlan::Stream(line) => line,
        other => panic!("{other:?}"),
    };
    let request = |items: &[&str]| match plan(items).unwrap() {
        UsbPlan::Request(line) => line,
        other => panic!("{other:?}"),
    };
    let shown = |items: &[&str]| match plan(items).unwrap() {
        UsbPlan::RequestAndShow(line) => line,
        other => panic!("{other:?}"),
    };
    assert!(matches!(plan(&["get-state"]), Ok(UsbPlan::Print(line)) if line == "device"));
    assert!(matches!(plan(&["get-serialno"]), Ok(UsbPlan::PrintSerial)));
    assert!(matches!(
        plan(&["get-devpath"]),
        Ok(UsbPlan::Print(line)) if line == "usb:18d1:4ee7:0000000000000001"
    ));
    assert_eq!(request(&["root"]), "ROOT");
    assert_eq!(request(&["remount"]), "REMOUNT");
    assert!(matches!(
        plan(&["tcpip", "5555"]),
        Ok(UsbPlan::RequestAndPrint(line, text))
            if line == "TCPIP\\t5555" && text == "restarting in TCP mode port: 5555"
    ));
    assert_eq!(
        plan(&["tcpip", "0"]).unwrap_err(),
        "tcpip port must be between 1 and 65535"
    );
    assert_eq!(plan(&["tcpip", "x"]).unwrap_err(), "invalid digit found in string");
    assert_eq!(stream(&["logcat"]), "SHELL\tlogcat");
    assert_eq!(stream(&["logcat", "-d", "x"]), "SHELL\tlogcat -d x");
    assert_eq!(
        stream(&["stat", "/a'b"]),
        "SHELL\tstat -c '%n %s %a %Y' -- '/a'\\''b'"
    );
    assert_eq!(stream(&["shell", "-T", "ls", "-t"]), "SHELL\tls -t");
    assert_eq!(stream(&["exec-out", "screencap", "-p"]), "EXEC\tscreencap -p");
    assert_eq!(stream(&["pull-stream", "/a"]), "PULL\t/a");
    assert_eq!(shown(&["install", "-r", "-g", "-u", "10", "a.apk"]), "INSTALL\ta.apk\t-r -g\t10");
    assert_eq!(shown(&["uninstall", "-k", "a.b"]), "UNINSTALL\t-k\t\ta.b");
    assert_eq!(request(&["reboot"]), "SHELL\treboot ");
    assert_eq!(request(&["reboot", "recovery"]), "SHELL\treboot recovery");
    assert_eq!(plan(&["reboot", "x"]).unwrap_err(), "unsupported reboot mode");
    assert_eq!(request(&["forward", "tcp:1", "tcp:2"]), "FORWARD\ttcp:1\ttcp:2");
    assert_eq!(shown(&["forward", "--list"]), "FORWARD_LIST");
    assert_eq!(request(&["forward", "--remove", "tcp:1"]), "FORWARD_REMOVE\ttcp:1");
    assert_eq!(request(&["forward", "--remove-all"]), "FORWARD_REMOVE_ALL");
    assert_eq!(request(&["reverse", "a", "b"]), "REVERSE\ta\tb");
    assert_eq!(request(&["reverse", "--remove", "a"]), "REVERSE_REMOVE\ta");
    assert_eq!(shown(&["reverse", "--list"]), "REVERSE_LIST");
    assert_eq!(request(&["reverse", "--remove-all"]), "REVERSE_REMOVE_ALL");
    assert!(matches!(plan(&["sync"]), Ok(UsbPlan::Sync)));
    assert!(matches!(plan(&["push", "a", "/b"]), Ok(UsbPlan::Push(r)) if r.paths.len() == 2));
    assert!(matches!(plan(&["pull", "/b", "a"]), Ok(UsbPlan::Pull(r)) if r.paths.len() == 2));
    assert_eq!(
        plan(&["bugreport", "x"]).unwrap_err(),
        "unsupported direct-USB command: bugreport x"
    );
    assert_eq!(plan(&["root", "x"]).unwrap_err(), "unsupported direct-USB command: root x");
}

#[test]
fn requests_reach_the_daemon_as_they_were_asked() {
    let device = info(None, None);
    let line = match usb_command(&values(&["install", "-g", "-r", "-u", "0", "/a b.apk"]), &device) {
        Ok(UsbPlan::RequestAndShow(line)) => line,
        other => panic!("{other:?}"),
    };
    assert!(matches!(
        parse_direct_request(&line),
        Ok(DirectRequest::Install { source, flags, user })
            if source == "/a b.apk" && flags == "-g -r" && user == "0"
    ));
    let line = match usb_command(&values(&["uninstall", "a.b_c"]), &device) {
        Ok(UsbPlan::RequestAndShow(line)) => line,
        other => panic!("{other:?}"),
    };
    assert!(matches!(
        parse_direct_request(&line),
        Ok(DirectRequest::Uninstall { keep, user, package })
            if keep.is_empty() && user.is_empty() && package == "a.b_c"
    ));
    assert!(matches!(
        parse_direct_request(&usb_shell_request("echo a\tb")),
        Ok(DirectRequest::Shell(command)) if command == "echo a\tb"
    ));
    assert!(matches!(
        parse_direct_request(&usb_push_request("/a b", "/c d")),
        Ok(DirectRequest::Push { source, destination }) if source == "/a b" && destination == "/c d"
    ));
    assert!(matches!(
        parse_direct_request(&usb_pull_request("/c d")),
        Ok(DirectRequest::Pull(path)) if path == "/c d"
    ));
}

#[test]
fn commands_on_a_device_over_tcp() {
    let plan = |items: &[&str]| wireless_command(&values(items), "h:1");
    let printed = |items: &[&str]| match plan(items).unwrap() {
        WirelessPlan::Print(line) => line,
        other => panic!("{other:?}"),
    };
    assert_eq!(printed(&["features"]), "shell_v2,cmd,sendrecv_v2");
    assert_eq!(printed(&["get-state"]), "device");
    assert_eq!(printed(&["get-serialno"]), "h:1");
    assert_eq!(printed(&["get-devpath"]), "tcp:h:1");
    assert!(matches!(plan(&["shell", "-T", "ls"]), Ok(WirelessPlan::Shell(c)) if c == "-T ls"));
    assert!(matches!(plan(&["exec-out", "id"]), Ok(WirelessPlan::Exec(c)) if c == "id"));
    assert!(matches!(plan(&["pull-stream", "/a"]), Ok(WirelessPlan::PullStream(p)) if p == "/a"));
    assert!(matches!(plan(&["pull", "a", "b"]), Ok(WirelessPlan::Pull(_))));
    assert!(matches!(plan(&["push", "a", "b"]), Ok(WirelessPlan::Push(_))));
    assert!(matches!(plan(&["sync"]), Ok(WirelessPlan::Sync)));
    assert!(matches!(plan(&["install", "a"]), Ok(WirelessPlan::Install(_))));
    assert!(matches!(plan(&["uninstall", "a"]), Ok(WirelessPlan::Uninstall(_))));
    assert!(matches!(plan(&["root"]), Ok(WirelessPlan::Root)));
    assert!(matches!(plan(&["remount"]), Ok(WirelessPlan::Remount)));
    assert!(matches!(plan(&["reboot"]), Ok(WirelessPlan::Reboot)));
    assert!(matches!(plan(&["reverse", "--remove", "a"]), Ok(WirelessPlan::RemoveReverse(_))));
    assert!(matches!(plan(&["reverse", "a", "b"]), Ok(WirelessPlan::ServeReverse(_, _))));
    assert_eq!(plan(&["reboot", "x"]).unwrap_err(), "unsupported wireless command: reboot x");
    assert!(matches!(
        wireless_forward_command(&values(&["forward", "a", "b"])),
        Ok(Some(ForwardPlan::Request(line))) if line == "FORWARD\ta\tb"
    ));
    assert!(matches!(
        wireless_forward_command(&values(&["forward", "--list"])),
        Ok(Some(ForwardPlan::RequestAndShow(line))) if line == "LIST"
    ));
    assert!(matches!(
        wireless_forward_command(&values(&["forward", "--remove", "a"])),
        Ok(Some(ForwardPlan::Request(line))) if line == "REMOVE\ta"
    ));
    assert!(matches!(
        wireless_forward_command(&values(&["forward", "--remove-all"])),
        Ok(Some(ForwardPlan::Request(line))) if line == "REMOVE_ALL"
    ));
    assert!(matches!(wireless_forward_command(&values(&["shell"])), Ok(None)));
}

#[test]
fn commands_on_a_device_behind_a_server() {
    let plan = |items: &[&str]| server_command(&values(items), None);
    assert!(matches!(
        server_command(&values(&["get-serialno"]), Some("S1")),
        Ok(ServerPlan::Print(line)) if line == "S1"
    ));
    assert!(matches!(
        plan(&["get-serialno"]),
        Ok(ServerPlan::ShowOutput(command)) if command == "getprop ro.serialno"
    ));
    assert!(matches!(
        plan(&["forward", "tcp:1", "tcp:2"]),
        Ok(ServerPlan::Forward { remote, local }) if remote == "tcp:2" && local == "tcp:1"
    ));
    assert_eq!(
        plan(&["forward", "--list"]).unwrap_err(),
        "forward --list is not yet available through ADB server mode"
    );
    assert!(matches!(
        plan(&["shell", "-n", "ls"]),
        Ok(ServerPlan::Shell(command)) if command == "ls"
    ));
    assert!(matches!(
        plan(&["uninstall", "-k", "-u", "10", "a.b"]),
        Ok(ServerPlan::Shell(command)) if command == "pm uninstall -k --user '10' 'a.b'"
    ));
    assert!(matches!(plan(&["reboot"]), Ok(ServerPlan::Reboot(RebootType::System))));
    assert!(matches!(
        plan(&["reboot", "sideload"]),
        Ok(ServerPlan::Reboot(RebootType::Sideload))
    ));
    assert_eq!(plan(&["reboot", "x"]).unwrap_err(), "unsupported reboot mode: x");
    assert!(matches!(
        plan(&["reverse", "--list", "x"]),
        Ok(ServerPlan::Reverse { remote, .. }) if remote == "--list"
    ));
    assert_eq!(
        plan(&["reverse", "--list"]).unwrap_err(),
        "reverse --list is not yet available through ADB server mode"
    );
    assert!(matches!(plan(&["reverse", "--remove-all"]), Ok(ServerPlan::ReverseRemoveAll)));
    assert!(matches!(plan(&["features"]), Ok(ServerPlan::PrintFeatures)));
    assert!(matches!(plan(&["logcat"]), Ok(ServerPlan::Shell(c)) if c == "logcat"));
    assert_eq!(plan(&["x"]).unwrap_err(), "unsupported ADB server command: x");
    assert!(judge_status(None).is_ok());
    assert!(judge_status(Some(0)).is_ok());
    assert_eq!(judge_status(Some(7)).unwrap_err(), "remote shell exited with status 7");
}

#[test]
fn packages_over_tcp_and_through_a_server() {
    let request =
        parse_install_request(&values(&["install", "-r", "-u", "10", "/a.apk"])).unwrap();
    let (install, action) = PackageInstall::begin(Installer::Wireless, &request, "5-1");
    let path = "/data/local/tmp/mab-install-5-1.apk";
    assert!(matches!(
        &action,
        PackageAction::Upload { source, remote } if source == "/a.apk" && remote == path
    ));
    let (install, action) = install.on_event(PackageEvent::Done);
    assert!(matches!(
        &action,
        PackageAction::Shell(c) if *c == format!("pm install -r --user 10 {path}")
    ));
    let (install, action) = install.on_event(PackageEvent::Output(b" Failure [X] \n".to_vec()));
    assert!(matches!(&action, PackageAction::Shell(c) if *c == format!("rm -f {path}")));
    let (_, action) = install.on_event(PackageEvent::Done);
    assert!(matches!(&action, PackageAction::Finish(Err(error)) if error == "Failure [X]"));

    let (install, _) = PackageInstall::begin(Installer::Server, &request, "9");
    let path = "/data/local/tmp/mab-server-install-9.apk";
    let (install, action) = install.on_event(PackageEvent::Done);
    assert!(matches!(
        &action,
        PackageAction::Shell(c) if *c == format!("pm install -r --user '10' '{path}'")
    ));
    let (install, action) = install.on_event(PackageEvent::Failed("status".to_owned()));
    assert!(matches!(&action, PackageAction::Shell(c) if *c == format!("rm -f -- '{path}'")));
    let (_, action) = install.on_event(PackageEvent::Done);
    assert!(matches!(&action, PackageAction::Finish(Err(error)) if error == "status"));
    let (install, _) = PackageInstall::begin(Installer::Server, &request, "9");
    let (_, action) = install.on_event(PackageEvent::Failed("gone".to_owned()));
    assert!(matches!(&action, PackageAction::Finish(Err(error)) if error == "gone"));

    let request =
        parse_uninstall_request(&values(&["uninstall", "-k", "-u", "10", "a.b"])).unwrap();
    assert_eq!(wireless_uninstall_command(&request), "pm uninstall -k --user 10 a.b");
    let request = parse_uninstall_request(&values(&["uninstall", "a.b"])).unwrap();
    assert_eq!(wireless_uninstall_command(&request), "pm uninstall a.b");
    assert!(judge_output(b"x\r\n Success\r\n").is_ok());
    assert_eq!(judge_output(b" no \n").unwrap_err(), "no");
}
