use adb_client::control::{is_idle, RequestGate};
use adb_client::daemon::{
    check_usb_length, check_wireless_length, parse_direct_request, parse_wireless_request,
    read_request, DirectRequest, WirelessRequest,
};
use adb_client::frames::{
    begin_stream, decode_stream, end_input, end_stream, frame_request, parse_usb_answer,
    parse_wireless_answer, read_input, write_error, write_frames, FramedReader, StreamDecoder,
};
use adb_client::job::{begin_direct, begin_wireless, on_reply, DeviceCall, Job, Reply, Work};

#[test]
fn binary_output_preserves_bytes_and_propagates_terminal_errors() {
    let bytes = [0, 255, b'\n', b'O', b'K'];
    let mut framed = b"OK\n".to_vec();
    framed.extend_from_slice(&(bytes.len() as u32).to_be_bytes());
    framed.extend_from_slice(&bytes);
    framed.extend_from_slice(&0u32.to_be_bytes());
    let mut success = framed.clone();
    success.extend_from_slice(b"OK\n");
    let mut output = Vec::new();
    decode_stream(&success, &mut output).unwrap();
    assert_eq!(output, bytes);
    framed.extend_from_slice(b"ERR\tremote failed\n");
    assert!(decode_stream(&framed, &mut Vec::new()).is_err());
}

#[test]
fn large_binary_stream_applies_backpressure_without_truncation() {
    let bytes: Vec<u8> = (0..2 * 1024 * 1024)
        .map(|index| (index % 251) as u8)
        .collect();
    let expected = bytes.clone();
    let mut stream = begin_stream();
    stream.extend_from_slice(&write_frames(&bytes));
    stream.extend_from_slice(&end_stream(&Ok(())));
    let mut decoder = StreamDecoder::new();
    let mut actual = Vec::new();
    for piece in stream.chunks(4093) {
        actual.extend_from_slice(&decoder.feed(piece));
    }
    decoder.finish().unwrap();
    assert_eq!(actual, expected);
}

#[test]
fn framed_upload_preserves_bytes_and_acknowledges_completion() {
    let ready = begin_stream();
    assert_eq!(&ready, b"OK\n");
    let mut sent = Vec::new();
    for frame in [b"first".as_slice(), &[0, 255, 42]] {
        sent.extend_from_slice(&(frame.len() as u32).to_be_bytes());
        sent.extend_from_slice(frame);
    }
    sent.extend_from_slice(&0u32.to_be_bytes());
    let input = read_input(&sent).unwrap();
    let terminal = end_input(&Ok(()));
    assert_eq!(terminal, b"OK\n");
    assert_eq!(input, b"first\0\xff*");
}

#[test]
fn an_upload_is_read_piece_by_piece() {
    let mut reader = FramedReader::new();
    assert!(reader.needs_frame());
    assert_eq!(reader.on_length(5).unwrap(), 5);
    reader.on_frame(b"first".to_vec());
    assert!(!reader.needs_frame());
    assert_eq!(reader.take(2), b"fi");
    assert_eq!(reader.take(10), b"rst");
    assert!(reader.needs_frame());
    assert_eq!(reader.on_length(0).unwrap(), 0);
    assert!(!reader.needs_frame());
    assert!(reader.take(3).is_empty());
    assert!(FramedReader::new().on_length(u32::MAX).is_err());
}

#[test]
fn streams_that_are_cut_short_or_refused() {
    assert!(decode_stream(b"", &mut Vec::new()).is_err());
    assert!(decode_stream(b"OK\n\0\0", &mut Vec::new()).is_err());
    assert!(decode_stream(b"ERR\tno device\n", &mut Vec::new()).is_err());
    assert!(read_input(b"\0\0\0\x05ab").is_err());
    assert_eq!(write_error("no device"), b"ERR\tno device\n");
    assert_eq!(end_stream(&Err("gone".to_owned())), b"\0\0\0\0ERR\tgone\n");
    assert_eq!(end_input(&Err("gone".to_owned())), b"ERR\tgone\n");
}

#[test]
fn requests_are_framed_with_their_length() {
    assert_eq!(frame_request("PING").unwrap(), b"\0\0\0\x04PING");
    assert_eq!(read_request("Größe".as_bytes()).unwrap(), "Größe");
    assert_eq!(
        read_request(b"a\xff").unwrap_err(),
        "invalid utf-8 sequence of 1 bytes from index 1"
    );
    assert_eq!(check_usb_length(1024 * 1024).unwrap(), 1024 * 1024);
    assert_eq!(check_usb_length(1024 * 1024 + 1).unwrap_err(), "request exceeds 1 MiB");
    assert_eq!(check_wireless_length(12).unwrap(), 12);
    assert_eq!(check_wireless_length(u32::MAX).unwrap_err(), "request too large");
}

#[test]
fn answers_of_the_daemons() {
    assert_eq!(parse_usb_answer("OK\nserial\nmodel\n").unwrap(), "serial\nmodel\n");
    assert_eq!(
        parse_usb_answer("ERR\tno rule").unwrap_err(),
        "direct USB daemon: no rule"
    );
    assert_eq!(
        parse_usb_answer("what").unwrap_err(),
        "invalid daemon response: what"
    );
    assert_eq!(parse_wireless_answer("OK\ntcp:1 tcp:2\n").unwrap(), "tcp:1 tcp:2\n");
    assert!(parse_wireless_answer("ERR\tno\n").is_err());
}

#[test]
fn requests_of_the_usb_daemon() {
    assert!(matches!(parse_direct_request("PING"), Ok(DirectRequest::Ping)));
    assert!(matches!(
        parse_direct_request("SHELL\techo a\tb"),
        Ok(DirectRequest::Shell(command)) if command == "echo a\tb"
    ));
    assert!(matches!(
        parse_direct_request("INSTALL\t/tmp/a.apk\t-r -g\t10"),
        Ok(DirectRequest::Install { source, flags, user })
            if source == "/tmp/a.apk" && flags == "-r -g" && user == "10"
    ));
    assert!(matches!(parse_direct_request("TCPIP\t5555"), Ok(DirectRequest::TcpIp(5555))));
    let error = |line: &str| parse_direct_request(line).unwrap_err();
    assert_eq!(error("SHELL"), "missing shell command");
    assert_eq!(error("INSTALL\ta\t-x\t"), "unsupported install options");
    assert_eq!(error("INSTALL\ta\t\tx"), "invalid install user");
    assert_eq!(error("UNINSTALL\t\t\t"), "invalid uninstall request");
    assert_eq!(error("TCPIP\t0"), "TCP port must be between 1 and 65535");
    assert_eq!(error("TCPIP\t70000"), "number too large to fit in target type");
    assert_eq!(error("TCPIP\t"), "cannot parse integer from empty string");
    assert_eq!(error("TCPIP\tx"), "invalid digit found in string");
    assert_eq!(error("NOPE\tx"), "unsupported daemon request: NOPE");
}

#[test]
fn requests_of_the_wireless_daemon() {
    assert!(matches!(
        parse_wireless_request("FORWARD\ttcp:1\ttcp:2"),
        Ok(WirelessRequest::Forward { local, remote }) if local == "tcp:1" && remote == "tcp:2"
    ));
    assert!(matches!(parse_wireless_request("LIST"), Ok(WirelessRequest::List)));
    assert!(parse_wireless_request("SHELL\tls").is_err());
}

#[test]
fn an_installation_removes_its_file_whatever_happens() {
    let request = parse_direct_request("INSTALL\t/tmp/a.apk\t-r\t10").unwrap();
    let (job, work) = begin_direct(request, "7-1");
    let remote = "/data/local/tmp/mab-install-7-1.apk";
    assert!(matches!(
        &work,
        Work::Call(DeviceCall::Push { source, destination })
            if source == "/tmp/a.apk" && destination == remote
    ));
    let (job, work) = on_reply(job, Reply::Done);
    assert!(matches!(
        &work,
        Work::Call(DeviceCall::Shell(command))
            if *command == format!("pm install -r --user 10 {remote}")
    ));
    let (job, work) = on_reply(job, Reply::Output(b"pkg: x\nSuccess\n".to_vec()));
    assert!(matches!(
        &work,
        Work::Call(DeviceCall::Shell(command)) if *command == format!("rm -f {remote}")
    ));
    let (job, work) = on_reply(job, Reply::Failed("gone".to_owned()));
    assert!(matches!(&work, Work::Answer(bytes) if bytes == b"OK\npkg: x\nSuccess\n"));
    assert!(matches!(job, Job::Over));

    let request = parse_direct_request("INSTALL\t/tmp/a.apk").unwrap();
    let (job, _) = begin_direct(request, "7-2");
    let (job, work) = on_reply(job, Reply::Failed("no space".to_owned()));
    assert!(matches!(&work, Work::Call(DeviceCall::Shell(command)) if command.starts_with("rm -f ")));
    let (_, work) = on_reply(job, Reply::Output(Vec::new()));
    assert!(matches!(&work, Work::Fail(error) if error == "no space"));
}

#[test]
fn the_properties_of_a_device_are_listed() {
    let (job, work) = begin_direct(DirectRequest::DeviceInfo, "");
    assert!(matches!(&work, Work::Call(DeviceCall::Shell(c)) if c == "getprop ro.serialno"));
    let (job, work) = on_reply(job, Reply::Output(b"S1\r\n".to_vec()));
    assert!(matches!(&work, Work::Call(DeviceCall::Shell(c)) if c == "getprop ro.product.model"));
    let (job, work) = on_reply(job, Reply::Output(b"Pixel 8\n".to_vec()));
    assert!(matches!(&work, Work::Call(DeviceCall::Shell(c)) if c == "getprop ro.build.product"));
    let (_, work) = on_reply(job, Reply::Output(b"shiba\n".to_vec()));
    assert!(matches!(&work, Work::Answer(bytes) if bytes == b"OK\nS1\nPixel 8\nshiba\n"));
}

#[test]
fn rules_are_listed_and_removed() {
    let (job, _) = begin_wireless(WirelessRequest::List);
    let list = vec![("tcp:1".to_owned(), "tcp:2".to_owned())];
    let (_, work) = on_reply(job, Reply::Routes(list));
    assert!(matches!(&work, Work::Answer(bytes) if bytes == b"OK\ntcp:1 tcp:2\n"));
    let (job, _) = begin_wireless(WirelessRequest::Remove("tcp:1".to_owned()));
    let (_, work) = on_reply(job, Reply::Removed(false));
    assert!(matches!(&work, Work::Fail(error) if error == "forward rule not found"));
}

#[test]
fn the_gate_admits_a_fixed_number_of_requests() {
    let mut gate = RequestGate::new();
    let mut admitted = 0;
    while gate.enter().is_ok() {
        admitted += 1;
    }
    assert_eq!(admitted, 12);
    assert_eq!(gate.enter().unwrap_err(), "too many concurrent requests");
    gate.leave();
    assert!(gate.enter().is_ok());
    assert!(!is_idle(true, u64::MAX));
    assert!(is_idle(false, u64::MAX));
    assert!(!is_idle(false, 0));
}
