use adb_client::control::{stable_transport_id, usb_socket_name, wireless_socket_name, Context};
use adb_client::paths::{
    check_pull_ancestors, file_name, is_beneath, join_path, parent_of, remote_join,
    safe_relative_remote_path, strip_base,
};
use adb_client::requests::{
    choose_partitions, find_command, parse_forward_request, parse_install_request,
    parse_sync_request, parse_uninstall_request, transfer_paths, ForwardRequest,
};

fn values(items: &[&str]) -> Vec<String> {
    items.iter().map(|item| (*item).to_owned()).collect()
}

#[test]
fn forward_management_flags_are_not_parsed_as_additions() {
    assert_eq!(
        parse_forward_request(&values(&["forward", "--remove", "tcp:1234"])).unwrap(),
        Some(ForwardRequest::Remove("tcp:1234"))
    );
    assert_eq!(
        parse_forward_request(&values(&["forward", "--remove-all"])).unwrap(),
        Some(ForwardRequest::RemoveAll)
    );
    assert_eq!(
        parse_forward_request(&values(&["forward", "tcp:1234", "tcp:4321"])).unwrap(),
        Some(ForwardRequest::Add("tcp:1234", "tcp:4321"))
    );
    assert!(parse_forward_request(&values(&["forward", "--remove", "a", "b"])).is_err());
}

#[test]
fn install_request_keeps_app_flags_and_user() {
    let request = parse_install_request(&values(&[
        "install",
        "-r",
        "-g",
        "--user",
        "10",
        "/tmp/example.apk",
    ]))
    .unwrap();
    assert_eq!(request.flags, ["-r", "-g"]);
    assert_eq!(request.user.as_deref(), Some("10"));
    assert_eq!(request.source, "/tmp/example.apk");
}

#[test]
fn uninstall_request_keeps_data_and_user() {
    let request = parse_uninstall_request(&values(&[
        "uninstall",
        "-k",
        "--user",
        "0",
        "com.example.app",
    ]))
    .unwrap();
    assert!(request.keep_data);
    assert_eq!(request.user.as_deref(), Some("0"));
    assert_eq!(request.package, "com.example.app");
}

#[test]
fn package_requests_reject_unsupported_options() {
    assert!(parse_install_request(&values(&["install", "--instant", "a.apk"])).is_err());
    assert!(
        parse_uninstall_request(&values(&["uninstall", "--all", "com.example.app"])).is_err()
    );
}

#[test]
fn transport_ids_are_stable_and_namespaced() {
    let usb = stable_transport_id("usb", "0000000001100000");
    assert_eq!(usb, stable_transport_id("usb", "0000000001100000"));
    assert_ne!(usb, stable_transport_id("usb", "0000000001200000"));
    assert_ne!(usb, stable_transport_id("tcp", "0000000001100000"));
    assert_ne!(usb, 0);
}

#[test]
fn transfer_compression_options_are_rejected_with_their_values() {
    assert!(transfer_paths(&values(&["push", "-z", "any", "a", "/data/a"]), "push").is_err());
    assert!(transfer_paths(&values(&["pull", "-Z", "/data/a", "a"]), "pull").is_err());
    let request = transfer_paths(
        &values(&["push", "--sync", "-n", "-q", "a", "/data/a"]),
        "push",
    )
    .unwrap();
    assert_eq!(request.paths, ["a", "/data/a"]);
    assert!(request.options.sync);
    assert!(request.options.dry_run);
    assert!(request.options.quiet);
    let request = transfer_paths(&values(&["pull", "-a", "/data/a", "a"]), "pull").unwrap();
    assert!(request.options.archive);
}

#[test]
fn remote_paths_cannot_escape_the_local_destination() {
    assert_eq!(
        safe_relative_remote_path("/sdcard/source", "/sdcard/source/dir/file").unwrap(),
        "dir/file"
    );
    assert!(safe_relative_remote_path("/sdcard/source", "/sdcard/source/../secret").is_err());
    assert_eq!(
        remote_join("/sdcard/target/", "dir/file"),
        "/sdcard/target/dir/file"
    );
}

#[test]
fn install_arguments_that_are_refused() {
    let error = |items: &[&str]| parse_install_request(&values(items)).unwrap_err();
    assert_eq!(error(&["install"]), "missing APK path");
    assert_eq!(error(&["install", "--user"]), "missing install user");
    assert_eq!(error(&["install", "-x", "a.apk"]), "unsupported install option");
    assert_eq!(
        error(&["install", "a.apk", "b.apk"]),
        "install accepts exactly one APK path"
    );
    assert_eq!(error(&["install", "a\tb.apk"]), "invalid install request");
    assert_eq!(error(&["install", "-u", "x", "a.apk"]), "invalid install request");
}

#[test]
fn uninstall_arguments_that_are_refused() {
    let error = |items: &[&str]| parse_uninstall_request(&values(items)).unwrap_err();
    assert_eq!(error(&["uninstall"]), "missing package name");
    assert_eq!(error(&["uninstall", "-u"]), "missing uninstall user");
    assert_eq!(error(&["uninstall", "-x", "a"]), "unsupported uninstall option");
    assert_eq!(
        error(&["uninstall", "a", "b"]),
        "uninstall accepts exactly one package name"
    );
    assert_eq!(error(&["uninstall", "a-b"]), "invalid uninstall request");
    assert_eq!(error(&["uninstall", "-u", "1a", "a"]), "invalid uninstall request");
}

#[test]
fn transfer_arguments_that_are_refused() {
    let error = |items: &[&str], operation: &str| {
        transfer_paths(&values(items), operation).unwrap_err()
    };
    assert_eq!(error(&["push", "-z"], "push"), "missing compression algorithm");
    assert_eq!(error(&["pull", "--sync", "a"], "pull"), "unsupported pull option: --sync");
    assert_eq!(error(&["push", "-a", "a"], "push"), "unsupported push option: -a");
    assert_eq!(
        error(&["pull", "-Z"], "pull"),
        "pull compression options are not supported by the bundled adb client"
    );
}

#[test]
fn forward_arguments_that_name_another_command_or_are_wrong() {
    assert_eq!(parse_forward_request(&values(&["shell", "ls"])).unwrap(), None);
    assert_eq!(parse_forward_request(&[]).unwrap(), None);
    assert_eq!(
        parse_forward_request(&values(&["forward", "--list"])).unwrap(),
        Some(ForwardRequest::List)
    );
    assert_eq!(
        parse_forward_request(&values(&["forward", "--x", "tcp:1"])).unwrap_err(),
        "usage: adb forward [--list|--remove LOCAL|--remove-all|LOCAL REMOTE]"
    );
}

#[test]
fn synchronisation_requests() {
    let request = parse_sync_request(&values(&["sync", "-l", "vendor"])).unwrap();
    assert!(request.list_only);
    assert_eq!(request.partition.as_deref(), Some("vendor"));
    assert_eq!(
        choose_partitions(&Some("vendor".to_owned())).unwrap(),
        ["vendor"]
    );
    assert_eq!(
        choose_partitions(&Some("boot".to_owned())).unwrap_err(),
        "unsupported sync partition: boot"
    );
    assert!(choose_partitions(&None).unwrap().contains(&"system".to_owned()));
    assert_eq!(
        choose_partitions(&None).unwrap(),
        choose_partitions(&Some("all".to_owned())).unwrap()
    );
}

#[test]
fn terminal_options_in_front_of_a_command() {
    assert_eq!(find_command(&values(&["shell", "-T", "-x", "--", "-n", "ls", "-t"]), 1), 5);
    assert_eq!(find_command(&values(&["shell"]), 1), 1);
}

#[test]
fn host_paths() {
    assert!(is_beneath("/a/b/c", "/a/b"));
    assert!(!is_beneath("/a/bc", "/a/b"));
    assert_eq!(strip_base("/a/b/c", "/a").as_deref(), Some("b/c"));
    assert_eq!(strip_base("/x", "/a"), None);
    assert_eq!(join_path("/a", "b"), "/a/b");
    assert_eq!(join_path("/a", "/b"), "/b");
    assert_eq!(file_name("/a/b/").as_deref(), Some("b"));
    assert_eq!(file_name("/a/.."), None);
    assert_eq!(parent_of("/a/b").as_deref(), Some("/a"));
    assert_eq!(parent_of("/"), None);
    assert_eq!(
        safe_relative_remote_path("/a", "/b").unwrap_err(),
        "prefix not found"
    );
    assert_eq!(
        safe_relative_remote_path("/a", "/a/../b").unwrap_err(),
        "unsafe remote path"
    );
}

#[test]
fn ancestors_of_a_download_are_inspected_up_to_the_destination() {
    assert_eq!(
        check_pull_ancestors("/tmp/x", "/tmp/x/a/b", false),
        ["/tmp/x/a", "/tmp/x"]
    );
    assert_eq!(check_pull_ancestors("/tmp/x", "/tmp/x", true), ["/tmp/x"]);
    assert_eq!(check_pull_ancestors("/tmp/x", "/tmp/x/outside", false), ["/tmp/x"]);
}

#[test]
fn numbers_of_transports_and_names_of_sockets() {
    // FNV-1a of the three bytes "a", zero and "b".
    assert_eq!(stable_transport_id("a", "b"), 0xe5d2_9919_0426_66b2);
    let context = Context {
        key: "/keys/adb".to_owned(),
        vendor: 0x18d1,
        product: 0x4ee7,
        location: 0x1100000,
    };
    let name = usb_socket_name(&context);
    assert!(name.starts_with("mab3-") && name.ends_with(".sock"));
    assert_eq!(name.len(), 26);
    let other = wireless_socket_name("/keys/adb", "10.0.0.2:5555");
    assert!(other.starts_with("mabw-") && other.ends_with(".sock"));
    assert_eq!(other.len(), 26);
    assert_ne!(other, wireless_socket_name("/keys/adb", "10.0.0.3:5555"));
}
