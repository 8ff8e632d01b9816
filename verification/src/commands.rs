//! What a command asks of the device that it is for.

use crate::daemon::{
    commands_are_what_stands_behind_their_word, direct_asked, fields, pairs_keep_their_order,
    rules_over_tcp_are_understood, single_fields_are_kept, wireless_asked,
    words_alone_are_understood, DirectRequest,
};
use crate::job::{direct_begin, requests_become_calls, wireless_begin, DeviceCall, Work};
use crate::listing::{usb_device_path, usb_path};
use crate::requests::{
    all_digits, command_start, dashed, find_command, forward_asked, forwards_are_understood,
    install_asked, install_flag,
    install_scan, package_char, parse_forward_request, parse_install_request,
    parse_uninstall_request, transfer_asked, transfer_paths, uninstall_asked, user_option,
    user_valid, ForwardRequest, Install, InstallRequest, InstallScan, Transfer, TransferRequest,
    Uninstall, UninstallRequest,
};
use crate::text::{
    complains, copy_text, decimal, decimals_are_read_back, empty_text, format_decimal, is_space,
    join, join_from, lemma_join_first, lemma_join_split, lemma_join_words, lemma_split_fields,
    lemma_split_join, optional_text, plus, read_unsigned, same_text, texts, unsigned_complaint,
    unsigned_value, words,
};
use crate::transfer::{path_valid, shell_quote, shell_word};
use crate::usb::{ADBDeviceInfo, DeviceFacts};
use vstd::prelude::*;

verus! {

/// What is to be done for a command on a device on the bus.
#[derive(Debug)]
pub enum UsbPlan<T, R> {
    /// Print a line.
    Print(T),
    /// Make a request of the daemon.
    Request(T),
    /// Make a request of the daemon, and print the answer as it is.
    RequestAndShow(T),
    /// Make a request of the daemon, and then print a line.
    RequestAndPrint(T, T),
    /// Ask the daemon for what the device says of itself, and print the serial
    /// number.
    PrintSerial,
    /// Make a request of the daemon whose answer is a stream, and print the stream.
    Stream(T),
    /// Download files.
    Pull(R),
    /// Upload files.
    Push(R),
    /// Bring partitions up to date.
    Sync,
}

/// What a plan says.
pub open spec fn usb_plan_view(plan: UsbPlan<String, TransferRequest>) -> UsbPlan<
    Seq<char>,
    Transfer,
> {
    match plan {
        UsbPlan::Print(line) => UsbPlan::Print(line@),
        UsbPlan::Request(line) => UsbPlan::Request(line@),
        UsbPlan::RequestAndShow(line) => UsbPlan::RequestAndShow(line@),
        UsbPlan::RequestAndPrint(line, text) => UsbPlan::RequestAndPrint(line@, text@),
        UsbPlan::PrintSerial => UsbPlan::PrintSerial,
        UsbPlan::Stream(line) => UsbPlan::Stream(line@),
        UsbPlan::Pull(request) => UsbPlan::Pull(request@),
        UsbPlan::Push(request) => UsbPlan::Push(request@),
        UsbPlan::Sync => UsbPlan::Sync,
    }
}

/// Whether the second argument is a word.
pub open spec fn second(args: Seq<Seq<char>>, word: Seq<char>) -> bool {
    args.len() > 1 && args[1] == word
}

/// The arguments from a place on, with spaces between them.
pub open spec fn spoken(args: Seq<Seq<char>>, from: int) -> Seq<char> {
    join(args.skip(from), seq![' '])
}

/// The user of a request, or nothing.
pub open spec fn user_text(user: Option<Seq<char>>) -> Seq<char> {
    match user {
        Some(user) => user,
        None => seq![],
    }
}

/// The request of the daemon that installs a package.
pub open spec fn install_line(request: Install) -> Seq<char> {
    "INSTALL\t"@ + request.source + "\t"@ + join(request.flags, seq![' ']) + "\t"@ + user_text(
        request.user,
    )
}

/// The request of the daemon that removes a package.
pub open spec fn uninstall_line(request: Uninstall) -> Seq<char> {
    "UNINSTALL\t"@ + (if request.keep_data {
        "-k"@
    } else {
        seq![]
    }) + "\t"@ + user_text(request.user) + "\t"@ + request.package
}

/// The command that shows the log of the device.
pub open spec fn logcat_command(args: Seq<Seq<char>>) -> Seq<char> {
    if args.len() == 1 {
        "logcat"@
    } else {
        "logcat "@ + spoken(args, 1)
    }
}

/// What is to be done about the forwarding rules of a device on the bus.
pub open spec fn usb_forward(request: ForwardRequest<Seq<char>>) -> UsbPlan<Seq<char>, Transfer> {
    match request {
        ForwardRequest::Add(local, remote) => UsbPlan::Request(
            "FORWARD\t"@ + local + "\t"@ + remote,
        ),
        ForwardRequest::List => UsbPlan::RequestAndShow("FORWARD_LIST"@),
        ForwardRequest::Remove(local) => UsbPlan::Request("FORWARD_REMOVE\t"@ + local),
        ForwardRequest::RemoveAll => UsbPlan::Request("FORWARD_REMOVE_ALL"@),
    }
}

/// What is to be done for a request for a TCP port.
pub open spec fn usb_tcpip(text: Seq<char>) -> Result<UsbPlan<Seq<char>, Transfer>, Seq<char>> {
    match unsigned_value(text, 10, 65535) {
        None => Err(unsigned_complaint(text, 10, 65535)),
        Some(port) => if port == 0 {
            Err("tcpip port must be between 1 and 65535"@)
        } else {
            Ok(
                UsbPlan::RequestAndPrint(
                    "TCPIP\\t"@ + decimal(port),
                    "restarting in TCP mode port: "@ + decimal(port),
                ),
            )
        },
    }
}

/// What is to be done about the reverse routes of a device on the bus.
pub open spec fn usb_reverse(args: Seq<Seq<char>>) -> Option<UsbPlan<Seq<char>, Transfer>> {
    if second(args, "--remove"@) && args.len() == 3 {
        Some(UsbPlan::Request("REVERSE_REMOVE\t"@ + args[2]))
    } else if second(args, "--list"@) && args.len() == 2 {
        Some(UsbPlan::RequestAndShow("REVERSE_LIST"@))
    } else if second(args, "--remove-all"@) && args.len() == 2 {
        Some(UsbPlan::Request("REVERSE_REMOVE_ALL"@))
    } else if args.len() == 3 {
        Some(UsbPlan::Request("REVERSE\t"@ + args[1] + "\t"@ + args[2]))
    } else {
        None
    }
}

/// Whether a device on the bus can be restarted in a mode.
pub open spec fn usb_reboot_mode(mode: Seq<char>) -> bool {
    mode.len() == 0 || mode == "bootloader"@ || mode == "recovery"@ || mode == "sideload"@
}

/// What is to be done to restart a device on the bus.
pub open spec fn usb_reboot(args: Seq<Seq<char>>) -> Result<
    UsbPlan<Seq<char>, Transfer>,
    Seq<char>,
> {
    let mode = if args.len() > 1 {
        args[1]
    } else {
        seq![]
    };
    if args.len() > 2 || !usb_reboot_mode(mode) {
        Err("unsupported reboot mode"@)
    } else {
        Ok(UsbPlan::Request("SHELL\treboot "@ + mode))
    }
}

/// What is to be done for a command on a device on the bus.
pub open spec fn usb_planned(args: Seq<Seq<char>>, device: DeviceFacts) -> Result<
    UsbPlan<Seq<char>, Transfer>,
    Seq<char>,
> {
    let unsupported = "unsupported direct-USB command: "@ + spoken(args, 0);
    match forward_asked(args) {
        Err(error) => Err(error),
        Ok(Some(request)) => Ok(usb_forward(request)),
        Ok(None) => if args.len() == 0 {
            Err(unsupported)
        } else if args[0] == "get-state"@ {
            Ok(UsbPlan::Print("device"@))
        } else if args[0] == "get-serialno"@ {
            Ok(UsbPlan::PrintSerial)
        } else if args[0] == "get-devpath"@ {
            Ok(UsbPlan::Print(usb_path(device)))
        } else if args[0] == "root"@ && args.len() == 1 {
            Ok(UsbPlan::Request("ROOT"@))
        } else if args[0] == "remount"@ && args.len() == 1 {
            Ok(UsbPlan::Request("REMOUNT"@))
        } else if args[0] == "tcpip"@ && args.len() == 2 {
            usb_tcpip(args[1])
        } else if args[0] == "logcat"@ {
            Ok(UsbPlan::Stream("SHELL\t"@ + logcat_command(args)))
        } else if (args[0] == "stat"@ || args[0] == "stat2"@) && args.len() == 2 {
            Ok(UsbPlan::Stream("SHELL\tstat -c '%n %s %a %Y' -- "@ + shell_word(args[1])))
        } else if args[0] == "shell"@ {
            Ok(UsbPlan::Stream("SHELL\t"@ + spoken(args, command_start(args, 1))))
        } else if args[0] == "exec-out"@ {
            Ok(UsbPlan::Stream("EXEC\t"@ + spoken(args, command_start(args, 1))))
        } else if args[0] == "pull-stream"@ && args.len() == 2 {
            Ok(UsbPlan::Stream("PULL\t"@ + args[1]))
        } else if args[0] == "pull"@ {
            match transfer_asked(args, "pull"@) {
                Ok(request) => Ok(UsbPlan::Pull(request)),
                Err(error) => Err(error),
            }
        } else if args[0] == "install"@ {
            match install_asked(args) {
                Ok(request) => Ok(UsbPlan::RequestAndShow(install_line(request))),
                Err(error) => Err(error),
            }
        } else if args[0] == "uninstall"@ {
            match uninstall_asked(args) {
                Ok(request) => Ok(UsbPlan::RequestAndShow(uninstall_line(request))),
                Err(error) => Err(error),
            }
        } else if args[0] == "reboot"@ {
            usb_reboot(args)
        } else if args[0] == "push"@ {
            match transfer_asked(args, "push"@) {
                Ok(request) => Ok(UsbPlan::Push(request)),
                Err(error) => Err(error),
            }
        } else if args[0] == "sync"@ {
            Ok(UsbPlan::Sync)
        } else if args[0] == "reverse"@ && usb_reverse(args) is Some {
            Ok(usb_reverse(args)->0)
        } else {
            Err(unsupported)
        },
    }
}

/// Whether the second argument is a word.
fn second_is(args: &[String], word: &str) -> (result: bool)
    ensures
        result == second(texts(args@), word@),
{
    assert(texts(args@).len() == args@.len());
    if args.len() < 2 {
        return false;
    }
    assert(texts(args@)[1] == args@[1]@);
    same_text(&args[1], word)
}

/// Writes the request of the daemon that installs a package.
fn write_install_line(request: &InstallRequest) -> (line: String)
    ensures
        line@ == install_line(request@),
{
    assert(texts(request.flags@).skip(0) =~= texts(request.flags@));
    let flags: String = join_from(&request.flags, 0);
    let front: String = plus(plus(copy_text("INSTALL\t"), &request.source), "\t");
    let middle: String = plus(plus(front, &flags), "\t");
    plus(middle, &write_user(&request.user))
}

/// Writes the user of a request, or nothing.
fn write_user(user: &Option<String>) -> (text: String)
    ensures
        text@ == user_text(optional_text(*user)),
{
    match user {
        Some(user) => copy_text(user),
        None => {
            let nothing = String::new();
            assert(nothing@ =~= seq![]);
            nothing
        },
    }
}

/// Writes the request of the daemon that removes a package.
fn write_uninstall_line(request: &UninstallRequest) -> (line: String)
    ensures
        line@ == uninstall_line(request@),
{
    let keep: String = if request.keep_data {
        copy_text("-k")
    } else {
        let nothing = String::new();
        assert(nothing@ =~= seq![]);
        nothing
    };
    let front: String = plus(plus(copy_text("UNINSTALL\t"), &keep), "\t");
    let middle: String = plus(plus(front, &write_user(&request.user)), "\t");
    plus(middle, &request.package)
}

/// Writes the command that shows the log of the device.
fn write_logcat_command(args: &[String]) -> (command: String)
    requires
        args@.len() > 0,
    ensures
        command@ == logcat_command(texts(args@)),
{
    assert(texts(args@).len() == args@.len());
    if args.len() == 1 {
        copy_text("logcat")
    } else {
        plus(copy_text("logcat "), &join_from(args, 1))
    }
}

/// Plans a request for a TCP port.
fn plan_tcpip(text: &str) -> (plan: Result<UsbPlan<String, TransferRequest>, String>)
    ensures
        match usb_tcpip(text@) {
            Ok(planned) => plan is Ok && usb_plan_view(plan->Ok_0) == planned,
            Err(error) => complains(plan, error),
        },
{
    match read_unsigned(text, 10, 65535) {
        Err(complaint) => Err(complaint),
        Ok(port) => {
            if port == 0 {
                return Err(copy_text("tcpip port must be between 1 and 65535"));
            }
            Ok(
                UsbPlan::RequestAndPrint(
                    plus(copy_text("TCPIP\\t"), &format_decimal(port)),
                    plus(copy_text("restarting in TCP mode port: "), &format_decimal(port)),
                ),
            )
        },
    }
}

/// Plans what is to be done about the reverse routes of a device on the bus.
fn plan_usb_reverse(args: &[String]) -> (plan: Option<UsbPlan<String, TransferRequest>>)
    ensures
        match usb_reverse(texts(args@)) {
            Some(planned) => plan is Some && usb_plan_view(plan->0) == planned,
            None => plan is None,
        },
{
    let ghost all = texts(args@);
    assert(all.len() == args@.len());
    if args.len() == 3 {
        assert(all[1] == args@[1]@ && all[2] == args@[2]@);
    }
    if second_is(args, "--remove") && args.len() == 3 {
        return Some(UsbPlan::Request(plus(copy_text("REVERSE_REMOVE\t"), &args[2])));
    }
    if second_is(args, "--list") && args.len() == 2 {
        return Some(UsbPlan::RequestAndShow(copy_text("REVERSE_LIST")));
    }
    if second_is(args, "--remove-all") && args.len() == 2 {
        return Some(UsbPlan::Request(copy_text("REVERSE_REMOVE_ALL")));
    }
    if args.len() == 3 {
        return Some(
            UsbPlan::Request(plus(plus(plus(copy_text("REVERSE\t"), &args[1]), "\t"), &args[2])),
        );
    }
    None
}

/// Plans the restart of a device on the bus.
fn plan_usb_reboot(args: &[String]) -> (plan: Result<UsbPlan<String, TransferRequest>, String>)
    ensures
        match usb_reboot(texts(args@)) {
            Ok(planned) => plan is Ok && usb_plan_view(plan->Ok_0) == planned,
            Err(error) => complains(plan, error),
        },
{
    let ghost all = texts(args@);
    assert(all.len() == args@.len());
    let mode: String = if args.len() > 1 {
        assert(all[1] == args@[1]@);
        copy_text(&args[1])
    } else {
        let nothing = String::new();
        assert(nothing@ =~= seq![]);
        nothing
    };
    if args.len() > 2 || !(empty_text(&mode) || same_text(&mode, "bootloader") || same_text(
        &mode,
        "recovery",
    ) || same_text(&mode, "sideload")) {
        return Err(copy_text("unsupported reboot mode"));
    }
    Ok(UsbPlan::Request(plus(copy_text("SHELL\treboot "), &mode)))
}

/// Writes the error for a command that is not supported.
fn unsupported(front: &str, args: &[String]) -> (error: String)
    ensures
        error@ == front@ + spoken(texts(args@), 0),
{
    plus(copy_text(front), &join_from(args, 0))
}

/// Plans a command on a device on the bus.
pub fn usb_command(args: &[String], device: &ADBDeviceInfo) -> (plan: Result<
    UsbPlan<String, TransferRequest>,
    String,
>)
    ensures
        match usb_planned(texts(args@), device@) {
            Ok(planned) => plan is Ok && usb_plan_view(plan->Ok_0) == planned,
            Err(error) => complains(plan, error),
        },
{
    let ghost all = texts(args@);
    assert(all.len() == args@.len());
    match parse_forward_request(args) {
        Err(error) => return Err(error),
        Ok(Some(ForwardRequest::Add(local, remote))) => return Ok(
            UsbPlan::Request(plus(plus(plus(copy_text("FORWARD\t"), local), "\t"), remote)),
        ),
        Ok(Some(ForwardRequest::List)) => return Ok(
            UsbPlan::RequestAndShow(copy_text("FORWARD_LIST")),
        ),
        Ok(Some(ForwardRequest::Remove(local))) => return Ok(
            UsbPlan::Request(plus(copy_text("FORWARD_REMOVE\t"), local)),
        ),
        Ok(Some(ForwardRequest::RemoveAll)) => return Ok(
            UsbPlan::Request(copy_text("FORWARD_REMOVE_ALL")),
        ),
        Ok(None) => {},
    }
    if args.len() == 0 {
        return Err(unsupported("unsupported direct-USB command: ", args));
    }
    assert(all[0] == args@[0]@);
    let name: &str = args[0].as_str();
    let count: usize = args.len();
    if count == 2 {
        assert(all[1] == args@[1]@);
    }
    if same_text(name, "get-state") {
        return Ok(UsbPlan::Print(copy_text("device")));
    }
    if same_text(name, "get-serialno") {
        return Ok(UsbPlan::PrintSerial);
    }
    if same_text(name, "get-devpath") {
        return Ok(UsbPlan::Print(usb_device_path(device)));
    }
    if same_text(name, "root") && count == 1 {
        return Ok(UsbPlan::Request(copy_text("ROOT")));
    }
    if same_text(name, "remount") && count == 1 {
        return Ok(UsbPlan::Request(copy_text("REMOUNT")));
    }
    if same_text(name, "tcpip") && count == 2 {
        return plan_tcpip(&args[1]);
    }
    if same_text(name, "logcat") {
        return Ok(UsbPlan::Stream(plus(copy_text("SHELL\t"), &write_logcat_command(args))));
    }
    if (same_text(name, "stat") || same_text(name, "stat2")) && count == 2 {
        return Ok(
            UsbPlan::Stream(
                plus(
                    copy_text("SHELL\tstat -c '%n %s %a %Y' -- "),
                    &shell_quote(&args[1]),
                ),
            ),
        );
    }
    if same_text(name, "shell") {
        let start: usize = find_command(args, 1);
        return Ok(UsbPlan::Stream(plus(copy_text("SHELL\t"), &join_from(args, start))));
    }
    if same_text(name, "exec-out") {
        let start: usize = find_command(args, 1);
        return Ok(UsbPlan::Stream(plus(copy_text("EXEC\t"), &join_from(args, start))));
    }
    if same_text(name, "pull-stream") && count == 2 {
        return Ok(UsbPlan::Stream(plus(copy_text("PULL\t"), &args[1])));
    }
    if same_text(name, "pull") {
        return match transfer_paths(args, "pull") {
            Ok(request) => Ok(UsbPlan::Pull(request)),
            Err(error) => Err(error),
        };
    }
    if same_text(name, "install") {
        return match parse_install_request(args) {
            Ok(request) => Ok(UsbPlan::RequestAndShow(write_install_line(&request))),
            Err(error) => Err(error),
        };
    }
    if same_text(name, "uninstall") {
        return match parse_uninstall_request(args) {
            Ok(request) => Ok(UsbPlan::RequestAndShow(write_uninstall_line(&request))),
            Err(error) => Err(error),
        };
    }
    if same_text(name, "reboot") {
        return plan_usb_reboot(args);
    }
    if same_text(name, "push") {
        return match transfer_paths(args, "push") {
            Ok(request) => Ok(UsbPlan::Push(request)),
            Err(error) => Err(error),
        };
    }
    if same_text(name, "sync") {
        return Ok(UsbPlan::Sync);
    }
    if same_text(name, "reverse") {
        match plan_usb_reverse(args) {
            Some(plan) => return Ok(plan),
            None => {},
        }
    }
    Err(unsupported("unsupported direct-USB command: ", args))
}

/// What is to be done about the forwarding rules of a device over TCP.
#[derive(Debug)]
pub enum ForwardPlan<T> {
    /// Make a request of the daemon.
    Request(T),
    /// Make a request of the daemon, and print the answer as it is.
    RequestAndShow(T),
}

/// What a plan says.
pub open spec fn forward_plan_view(plan: ForwardPlan<String>) -> ForwardPlan<Seq<char>> {
    match plan {
        ForwardPlan::Request(line) => ForwardPlan::Request(line@),
        ForwardPlan::RequestAndShow(line) => ForwardPlan::RequestAndShow(line@),
    }
}

/// What is to be done about the forwarding rules of a device over TCP; nothing
/// where the arguments name another command.
pub open spec fn wireless_forward_planned(args: Seq<Seq<char>>) -> Result<
    Option<ForwardPlan<Seq<char>>>,
    Seq<char>,
> {
    match forward_asked(args) {
        Err(error) => Err(error),
        Ok(None) => Ok(None),
        Ok(Some(ForwardRequest::Add(local, remote))) => Ok(
            Some(ForwardPlan::Request("FORWARD\t"@ + local + "\t"@ + remote)),
        ),
        Ok(Some(ForwardRequest::List)) => Ok(Some(ForwardPlan::RequestAndShow("LIST"@))),
        Ok(Some(ForwardRequest::Remove(local))) => Ok(
            Some(ForwardPlan::Request("REMOVE\t"@ + local)),
        ),
        Ok(Some(ForwardRequest::RemoveAll)) => Ok(Some(ForwardPlan::Request("REMOVE_ALL"@))),
    }
}

/// Plans what is to be done about the forwarding rules of a device over TCP.
pub fn wireless_forward_command(args: &[String]) -> (plan: Result<
    Option<ForwardPlan<String>>,
    String,
>)
    ensures
        match wireless_forward_planned(texts(args@)) {
            Ok(None) => plan is Ok && plan->Ok_0 is None,
            Ok(Some(planned)) => {
                &&& plan is Ok
                &&& plan->Ok_0 is Some
                &&& forward_plan_view(plan->Ok_0->0) == planned
            },
            Err(error) => complains(plan, error),
        },
{
    match parse_forward_request(args) {
        Err(error) => Err(error),
        Ok(None) => Ok(None),
        Ok(Some(ForwardRequest::Add(local, remote))) => Ok(
            Some(
                ForwardPlan::Request(
                    plus(plus(plus(copy_text("FORWARD\t"), local), "\t"), remote),
                ),
            ),
        ),
        Ok(Some(ForwardRequest::List)) => Ok(
            Some(ForwardPlan::RequestAndShow(copy_text("LIST"))),
        ),
        Ok(Some(ForwardRequest::Remove(local))) => Ok(
            Some(ForwardPlan::Request(plus(copy_text("REMOVE\t"), local))),
        ),
        Ok(Some(ForwardRequest::RemoveAll)) => Ok(
            Some(ForwardPlan::Request(copy_text("REMOVE_ALL"))),
        ),
    }
}

/// What is to be done for a command on a connected device over TCP.
#[derive(Debug)]
pub enum WirelessPlan<T, R, I, U> {
    /// Print a line.
    Print(T),
    /// Run a command in the shell.
    Shell(T),
    /// Run a command with raw output.
    Exec(T),
    /// Print a file.
    PullStream(T),
    /// Download files.
    Pull(R),
    /// Upload files.
    Push(R),
    /// Bring partitions up to date.
    Sync,
    /// Install a package.
    Install(I),
    /// Remove a package.
    Uninstall(U),
    /// Restart the daemon of the device with root privileges.
    Root,
    /// Remount the partitions of the device writable.
    Remount,
    /// Restart the device.
    Reboot,
    /// Remove a reverse route.
    RemoveReverse(T),
    /// Start a process that serves a reverse route.
    ServeReverse(T, T),
}

/// What a plan says, for each of its parts.
pub open spec fn wireless_plan_view(
    plan: WirelessPlan<String, TransferRequest, InstallRequest, UninstallRequest>,
) -> WirelessPlan<Seq<char>, Transfer, Install, Uninstall> {
    match plan {
        WirelessPlan::Print(line) => WirelessPlan::Print(line@),
        WirelessPlan::Shell(command) => WirelessPlan::Shell(command@),
        WirelessPlan::Exec(command) => WirelessPlan::Exec(command@),
        WirelessPlan::PullStream(path) => WirelessPlan::PullStream(path@),
        WirelessPlan::Pull(request) => WirelessPlan::Pull(request@),
        WirelessPlan::Push(request) => WirelessPlan::Push(request@),
        WirelessPlan::Sync => WirelessPlan::Sync,
        WirelessPlan::Install(request) => WirelessPlan::Install(request@),
        WirelessPlan::Uninstall(request) => WirelessPlan::Uninstall(request@),
        WirelessPlan::Root => WirelessPlan::Root,
        WirelessPlan::Remount => WirelessPlan::Remount,
        WirelessPlan::Reboot => WirelessPlan::Reboot,
        WirelessPlan::RemoveReverse(remote) => WirelessPlan::RemoveReverse(remote@),
        WirelessPlan::ServeReverse(remote, local) => WirelessPlan::ServeReverse(remote@, local@),
    }
}

/// What is to be done for a command on a connected device over TCP.
pub open spec fn wireless_planned(args: Seq<Seq<char>>, address: Seq<char>) -> Result<
    WirelessPlan<Seq<char>, Transfer, Install, Uninstall>,
    Seq<char>,
> {
    let unsupported = "unsupported wireless command: "@ + spoken(args, 0);
    if args.len() == 0 {
        Err(unsupported)
    } else if args[0] == "features"@ && args.len() == 1 {
        Ok(WirelessPlan::Print("shell_v2,cmd,sendrecv_v2"@))
    } else if args[0] == "get-state"@ && args.len() == 1 {
        Ok(WirelessPlan::Print("device"@))
    } else if args[0] == "get-serialno"@ && args.len() == 1 {
        Ok(WirelessPlan::Print(address))
    } else if args[0] == "get-devpath"@ && args.len() == 1 {
        Ok(WirelessPlan::Print("tcp:"@ + address))
    } else if args[0] == "shell"@ {
        Ok(WirelessPlan::Shell(spoken(args, 1)))
    } else if args[0] == "exec-out"@ {
        Ok(WirelessPlan::Exec(spoken(args, 1)))
    } else if args[0] == "pull-stream"@ && args.len() == 2 {
        Ok(WirelessPlan::PullStream(args[1]))
    } else if args[0] == "pull"@ {
        match transfer_asked(args, "pull"@) {
            Ok(request) => Ok(WirelessPlan::Pull(request)),
            Err(error) => Err(error),
        }
    } else if args[0] == "push"@ {
        match transfer_asked(args, "push"@) {
            Ok(request) => Ok(WirelessPlan::Push(request)),
            Err(error) => Err(error),
        }
    } else if args[0] == "sync"@ {
        Ok(WirelessPlan::Sync)
    } else if args[0] == "install"@ {
        match install_asked(args) {
            Ok(request) => Ok(WirelessPlan::Install(request)),
            Err(error) => Err(error),
        }
    } else if args[0] == "uninstall"@ {
        match uninstall_asked(args) {
            Ok(request) => Ok(WirelessPlan::Uninstall(request)),
            Err(error) => Err(error),
        }
    } else if args[0] == "root"@ && args.len() == 1 {
        Ok(WirelessPlan::Root)
    } else if args[0] == "remount"@ && args.len() == 1 {
        Ok(WirelessPlan::Remount)
    } else if args[0] == "reboot"@ && args.len() == 1 {
        Ok(WirelessPlan::Reboot)
    } else if args[0] == "reverse"@ && second(args, "--remove"@) && args.len() == 3 {
        Ok(WirelessPlan::RemoveReverse(args[2]))
    } else if args[0] == "reverse"@ && args.len() == 3 {
        Ok(WirelessPlan::ServeReverse(args[1], args[2]))
    } else {
        Err(unsupported)
    }
}

/// Plans a command on a connected device over TCP.
pub fn wireless_command(args: &[String], address: &str) -> (plan: Result<
    WirelessPlan<String, TransferRequest, InstallRequest, UninstallRequest>,
    String,
>)
    ensures
        match wireless_planned(texts(args@), address@) {
            Ok(planned) => plan is Ok && wireless_plan_view(plan->Ok_0) == planned,
            Err(error) => complains(plan, error),
        },
{
    let ghost all = texts(args@);
    assert(all.len() == args@.len());
    if args.len() == 0 {
        return Err(unsupported("unsupported wireless command: ", args));
    }
    assert(all[0] == args@[0]@);
    let name: &str = args[0].as_str();
    let count: usize = args.len();
    proof {
        if count >= 2 {
            assert(all[1] == args@[1]@);
        }
        if count >= 3 {
            assert(all[2] == args@[2]@);
        }
    }
    if same_text(name, "features") && count == 1 {
        return Ok(WirelessPlan::Print(copy_text("shell_v2,cmd,sendrecv_v2")));
    }
    if same_text(name, "get-state") && count == 1 {
        return Ok(WirelessPlan::Print(copy_text("device")));
    }
    if same_text(name, "get-serialno") && count == 1 {
        return Ok(WirelessPlan::Print(copy_text(address)));
    }
    if same_text(name, "get-devpath") && count == 1 {
        return Ok(WirelessPlan::Print(plus(copy_text("tcp:"), address)));
    }
    if same_text(name, "shell") {
        return Ok(WirelessPlan::Shell(join_from(args, 1)));
    }
    if same_text(name, "exec-out") {
        return Ok(WirelessPlan::Exec(join_from(args, 1)));
    }
    if same_text(name, "pull-stream") && count == 2 {
        return Ok(WirelessPlan::PullStream(copy_text(&args[1])));
    }
    if same_text(name, "pull") {
        return match transfer_paths(args, "pull") {
            Ok(request) => Ok(WirelessPlan::Pull(request)),
            Err(error) => Err(error),
        };
    }
    if same_text(name, "push") {
        return match transfer_paths(args, "push") {
            Ok(request) => Ok(WirelessPlan::Push(request)),
            Err(error) => Err(error),
        };
    }
    if same_text(name, "sync") {
        return Ok(WirelessPlan::Sync);
    }
    if same_text(name, "install") {
        return match parse_install_request(args) {
            Ok(request) => Ok(WirelessPlan::Install(request)),
            Err(error) => Err(error),
        };
    }
    if same_text(name, "uninstall") {
        return match parse_uninstall_request(args) {
            Ok(request) => Ok(WirelessPlan::Uninstall(request)),
            Err(error) => Err(error),
        };
    }
    if same_text(name, "root") && count == 1 {
        return Ok(WirelessPlan::Root);
    }
    if same_text(name, "remount") && count == 1 {
        return Ok(WirelessPlan::Remount);
    }
    if same_text(name, "reboot") && count == 1 {
        return Ok(WirelessPlan::Reboot);
    }
    if same_text(name, "reverse") && count == 3 {
        if second_is(args, "--remove") {
            return Ok(WirelessPlan::RemoveReverse(copy_text(&args[2])));
        }
        return Ok(WirelessPlan::ServeReverse(copy_text(&args[1]), copy_text(&args[2])));
    }
    Err(unsupported("unsupported wireless command: ", args))
}

/// How a device is restarted.
#[derive(Clone, Copy, Debug, PartialEq, Eq, Structural)]
pub enum RebootType {
    /// The system.
    System,
    /// The boot loader.
    Bootloader,
    /// The recovery system.
    Recovery,
    /// The recovery system, which waits for a package.
    Sideload,
}

/// What is to be done for a command on a device behind a server.
#[derive(Debug)]
pub enum ServerPlan<T, R, I> {
    /// Print a line.
    Print(T),
    /// Run a command in the shell, and print its whole output as text.
    ShowOutput(T),
    /// Print the features of the server, with commas between them.
    PrintFeatures,
    /// Run a command in the shell, and print its output as it comes.
    Shell(T),
    /// Print a file.
    PullStream(T),
    /// Download files.
    Pull(R),
    /// Upload files.
    Push(R),
    /// Bring partitions up to date.
    Sync,
    /// Install a package.
    Install(I),
    /// Restart the daemon of the device with root privileges.
    Root,
    /// Remount the partitions of the device writable.
    Remount,
    /// Restart the device.
    Reboot(RebootType),
    /// Add a forwarding rule.
    Forward {
        /// The device endpoint.
        remote: T,
        /// The host endpoint.
        local: T,
    },
    /// Remove a forwarding rule.
    ForwardRemove(T),
    /// Remove every forwarding rule.
    ForwardRemoveAll,
    /// Add a reverse route.
    Reverse {
        /// The device endpoint.
        remote: T,
        /// The host endpoint.
        local: T,
    },
    /// Remove a reverse route.
    ReverseRemove(T),
    /// Remove every reverse route.
    ReverseRemoveAll,
}

/// What a plan says, for each of its parts.
pub open spec fn server_plan_view(
    plan: ServerPlan<String, TransferRequest, InstallRequest>,
) -> ServerPlan<Seq<char>, Transfer, Install> {
    match plan {
        ServerPlan::Print(line) => ServerPlan::Print(line@),
        ServerPlan::ShowOutput(command) => ServerPlan::ShowOutput(command@),
        ServerPlan::PrintFeatures => ServerPlan::PrintFeatures,
        ServerPlan::Shell(command) => ServerPlan::Shell(command@),
        ServerPlan::PullStream(path) => ServerPlan::PullStream(path@),
        ServerPlan::Pull(request) => ServerPlan::Pull(request@),
        ServerPlan::Push(request) => ServerPlan::Push(request@),
        ServerPlan::Sync => ServerPlan::Sync,
        ServerPlan::Install(request) => ServerPlan::Install(request@),
        ServerPlan::Root => ServerPlan::Root,
        ServerPlan::Remount => ServerPlan::Remount,
        ServerPlan::Reboot(kind) => ServerPlan::Reboot(kind),
        ServerPlan::Forward { remote, local } => ServerPlan::Forward {
            remote: remote@,
            local: local@,
        },
        ServerPlan::ForwardRemove(local) => ServerPlan::ForwardRemove(local@),
        ServerPlan::ForwardRemoveAll => ServerPlan::ForwardRemoveAll,
        ServerPlan::Reverse { remote, local } => ServerPlan::Reverse {
            remote: remote@,
            local: local@,
        },
        ServerPlan::ReverseRemove(remote) => ServerPlan::ReverseRemove(remote@),
        ServerPlan::ReverseRemoveAll => ServerPlan::ReverseRemoveAll,
    }
}

/// The option that names a user to the package manager, for the shell.
pub open spec fn quoted_user(user: Option<Seq<char>>) -> Seq<char> {
    match user {
        Some(user) => " --user "@ + shell_word(user),
        None => seq![],
    }
}

/// The command that removes a package through a server.
pub open spec fn server_uninstall_command(request: Uninstall) -> Seq<char> {
    "pm uninstall"@ + (if request.keep_data {
        " -k"@
    } else {
        seq![]
    }) + quoted_user(request.user) + " "@ + shell_word(request.package)
}

/// How a device behind a server is to be restarted.
pub open spec fn server_reboot(args: Seq<Seq<char>>) -> Result<RebootType, Seq<char>> {
    if args.len() < 2 {
        Ok(RebootType::System)
    } else if args[1] == "bootloader"@ {
        Ok(RebootType::Bootloader)
    } else if args[1] == "recovery"@ {
        Ok(RebootType::Recovery)
    } else if args[1] == "sideload"@ {
        Ok(RebootType::Sideload)
    } else {
        Err("unsupported reboot mode: "@ + args[1])
    }
}

/// What is to be done for a command on a device behind a server, which may be
/// known by its serial number.
pub open spec fn server_planned(args: Seq<Seq<char>>, serial: Option<Seq<char>>) -> Result<
    ServerPlan<Seq<char>, Transfer, Install>,
    Seq<char>,
> {
    let unsupported = "unsupported ADB server command: "@ + spoken(args, 0);
    match forward_asked(args) {
        Err(error) => Err(error),
        Ok(Some(ForwardRequest::Add(local, remote))) => Ok(ServerPlan::Forward { remote, local }),
        Ok(Some(ForwardRequest::Remove(local))) => Ok(ServerPlan::ForwardRemove(local)),
        Ok(Some(ForwardRequest::RemoveAll)) => Ok(ServerPlan::ForwardRemoveAll),
        Ok(Some(ForwardRequest::List)) => Err(
            "forward --list is not yet available through ADB server mode"@,
        ),
        Ok(None) => if args.len() == 0 {
            Err(unsupported)
        } else if args[0] == "get-state"@ && args.len() == 1 {
            Ok(ServerPlan::Print("device"@))
        } else if args[0] == "get-serialno"@ && args.len() == 1 {
            match serial {
                Some(serial) => Ok(ServerPlan::Print(serial)),
                None => Ok(ServerPlan::ShowOutput("getprop ro.serialno"@)),
            }
        } else if args[0] == "features"@ && args.len() == 1 {
            Ok(ServerPlan::PrintFeatures)
        } else if args[0] == "shell"@ || args[0] == "exec-out"@ {
            Ok(ServerPlan::Shell(spoken(args, command_start(args, 1))))
        } else if args[0] == "pull-stream"@ && args.len() == 2 {
            Ok(ServerPlan::PullStream(args[1]))
        } else if args[0] == "pull"@ {
            match transfer_asked(args, "pull"@) {
                Ok(request) => Ok(ServerPlan::Pull(request)),
                Err(error) => Err(error),
            }
        } else if args[0] == "push"@ {
            match transfer_asked(args, "push"@) {
                Ok(request) => Ok(ServerPlan::Push(request)),
                Err(error) => Err(error),
            }
        } else if args[0] == "sync"@ {
            Ok(ServerPlan::Sync)
        } else if args[0] == "install"@ {
            match install_asked(args) {
                Ok(request) => Ok(ServerPlan::Install(request)),
                Err(error) => Err(error),
            }
        } else if args[0] == "uninstall"@ {
            match uninstall_asked(args) {
                Ok(request) => Ok(ServerPlan::Shell(server_uninstall_command(request))),
                Err(error) => Err(error),
            }
        } else if args[0] == "root"@ && args.len() == 1 {
            Ok(ServerPlan::Root)
        } else if args[0] == "remount"@ && args.len() == 1 {
            Ok(ServerPlan::Remount)
        } else if args[0] == "reboot"@ && args.len() <= 2 {
            match server_reboot(args) {
                Ok(kind) => Ok(ServerPlan::Reboot(kind)),
                Err(error) => Err(error),
            }
        } else if args[0] == "reverse"@ && second(args, "--remove"@) && args.len() == 3 {
            Ok(ServerPlan::ReverseRemove(args[2]))
        } else if args[0] == "reverse"@ && second(args, "--remove-all"@) && args.len() == 2 {
            Ok(ServerPlan::ReverseRemoveAll)
        } else if args[0] == "reverse"@ && args.len() == 3 {
            Ok(ServerPlan::Reverse { remote: args[1], local: args[2] })
        } else if args[0] == "reverse"@ && second(args, "--list"@) {
            Err("reverse --list is not yet available through ADB server mode"@)
        } else if args[0] == "logcat"@ {
            Ok(ServerPlan::Shell(logcat_command(args)))
        } else {
            Err(unsupported)
        },
    }
}

/// Writes the option that names a user to the package manager, for the shell.
pub fn write_quoted_user(user: &Option<String>) -> (flag: String)
    ensures
        flag@ == quoted_user(optional_text(*user)),
{
    match user {
        Some(user) => plus(copy_text(" --user "), &shell_quote(user)),
        None => {
            let nothing = String::new();
            assert(nothing@ =~= seq![]);
            nothing
        },
    }
}

/// Writes the command that removes a package through a server.
fn write_server_uninstall(request: &UninstallRequest) -> (command: String)
    ensures
        command@ == server_uninstall_command(request@),
{
    let keep: String = if request.keep_data {
        copy_text(" -k")
    } else {
        let nothing = String::new();
        assert(nothing@ =~= seq![]);
        nothing
    };
    let front: String = plus(copy_text("pm uninstall"), &keep);
    plus(plus(plus(front, &write_quoted_user(&request.user)), " "), &shell_quote(&request.package))
}

/// Plans the restart of a device behind a server.
fn plan_server_reboot(args: &[String]) -> (kind: Result<RebootType, String>)
    ensures
        match server_reboot(texts(args@)) {
            Ok(planned) => kind is Ok && kind->Ok_0 == planned,
            Err(error) => complains(kind, error),
        },
{
    let ghost all = texts(args@);
    assert(all.len() == args@.len());
    if args.len() < 2 {
        return Ok(RebootType::System);
    }
    assert(all[1] == args@[1]@);
    if same_text(&args[1], "bootloader") {
        return Ok(RebootType::Bootloader);
    }
    if same_text(&args[1], "recovery") {
        return Ok(RebootType::Recovery);
    }
    if same_text(&args[1], "sideload") {
        return Ok(RebootType::Sideload);
    }
    Err(plus(copy_text("unsupported reboot mode: "), &args[1]))
}

/// Plans what is to be done about the reverse routes of a device behind a server.
fn plan_server_reverse(args: &[String]) -> (plan: Result<
    Option<ServerPlan<String, TransferRequest, InstallRequest>>,
    String,
>)
    ensures
        ({
            let all = texts(args@);
            if second(all, "--remove"@) && all.len() == 3 {
                &&& plan is Ok
                &&& plan->Ok_0 is Some
                &&& server_plan_view(plan->Ok_0->0) == ServerPlan::<
                    Seq<char>,
                    Transfer,
                    Install,
                >::ReverseRemove(all[2])
            } else if second(all, "--remove-all"@) && all.len() == 2 {
                &&& plan is Ok
                &&& plan->Ok_0 is Some
                &&& server_plan_view(plan->Ok_0->0) == ServerPlan::<
                    Seq<char>,
                    Transfer,
                    Install,
                >::ReverseRemoveAll
            } else if all.len() == 3 {
                &&& plan is Ok
                &&& plan->Ok_0 is Some
                &&& server_plan_view(plan->Ok_0->0) == (ServerPlan::<
                    Seq<char>,
                    Transfer,
                    Install,
                >::Reverse { remote: all[1], local: all[2] })
            } else if second(all, "--list"@) {
                complains(plan, "reverse --list is not yet available through ADB server mode"@)
            } else {
                plan is Ok && plan->Ok_0 is None
            }
        }),
{
    let ghost all = texts(args@);
    assert(all.len() == args@.len());
    let count: usize = args.len();
    if count == 3 {
        assert(all[1] == args@[1]@ && all[2] == args@[2]@);
        if second_is(args, "--remove") {
            return Ok(Some(ServerPlan::ReverseRemove(copy_text(&args[2]))));
        }
        return Ok(
            Some(ServerPlan::Reverse { remote: copy_text(&args[1]), local: copy_text(&args[2]) }),
        );
    }
    if second_is(args, "--remove-all") && count == 2 {
        return Ok(Some(ServerPlan::ReverseRemoveAll));
    }
    if second_is(args, "--list") {
        return Err(copy_text("reverse --list is not yet available through ADB server mode"));
    }
    Ok(None)
}

/// Plans a command on a device behind a server.
pub fn server_command(args: &[String], serial: Option<&str>) -> (plan: Result<
    ServerPlan<String, TransferRequest, InstallRequest>,
    String,
>)
    ensures
        match server_planned(
            texts(args@),
            match serial {
                Some(serial) => Some(serial@),
                None => None,
            },
        ) {
            Ok(planned) => plan is Ok && server_plan_view(plan->Ok_0) == planned,
            Err(error) => complains(plan, error),
        },
{
    let ghost all = texts(args@);
    assert(all.len() == args@.len());
    match parse_forward_request(args) {
        Err(error) => return Err(error),
        Ok(Some(ForwardRequest::Add(local, remote))) => return Ok(
            ServerPlan::Forward { remote: copy_text(remote), local: copy_text(local) },
        ),
        Ok(Some(ForwardRequest::Remove(local))) => return Ok(
            ServerPlan::ForwardRemove(copy_text(local)),
        ),
        Ok(Some(ForwardRequest::RemoveAll)) => return Ok(ServerPlan::ForwardRemoveAll),
        Ok(Some(ForwardRequest::List)) => return Err(
            copy_text("forward --list is not yet available through ADB server mode"),
        ),
        Ok(None) => {},
    }
    if args.len() == 0 {
        return Err(unsupported("unsupported ADB server command: ", args));
    }
    assert(all[0] == args@[0]@);
    let name: &str = args[0].as_str();
    let count: usize = args.len();
    if count == 2 {
        assert(all[1] == args@[1]@);
    }
    if same_text(name, "get-state") && count == 1 {
        return Ok(ServerPlan::Print(copy_text("device")));
    }
    if same_text(name, "get-serialno") && count == 1 {
        return match serial {
            Some(serial) => Ok(ServerPlan::Print(copy_text(serial))),
            None => Ok(ServerPlan::ShowOutput(copy_text("getprop ro.serialno"))),
        };
    }
    if same_text(name, "features") && count == 1 {
        return Ok(ServerPlan::PrintFeatures);
    }
    if same_text(name, "shell") || same_text(name, "exec-out") {
        let start: usize = find_command(args, 1);
        return Ok(ServerPlan::Shell(join_from(args, start)));
    }
    if same_text(name, "pull-stream") && count == 2 {
        return Ok(ServerPlan::PullStream(copy_text(&args[1])));
    }
    if same_text(name, "pull") {
        return match transfer_paths(args, "pull") {
            Ok(request) => Ok(ServerPlan::Pull(request)),
            Err(error) => Err(error),
        };
    }
    if same_text(name, "push") {
        return match transfer_paths(args, "push") {
            Ok(request) => Ok(ServerPlan::Push(request)),
            Err(error) => Err(error),
        };
    }
    if same_text(name, "sync") {
        return Ok(ServerPlan::Sync);
    }
    if same_text(name, "install") {
        return match parse_install_request(args) {
            Ok(request) => Ok(ServerPlan::Install(request)),
            Err(error) => Err(error),
        };
    }
    if same_text(name, "uninstall") {
        return match parse_uninstall_request(args) {
            Ok(request) => Ok(ServerPlan::Shell(write_server_uninstall(&request))),
            Err(error) => Err(error),
        };
    }
    if same_text(name, "root") && count == 1 {
        return Ok(ServerPlan::Root);
    }
    if same_text(name, "remount") && count == 1 {
        return Ok(ServerPlan::Remount);
    }
    if same_text(name, "reboot") && count <= 2 {
        return match plan_server_reboot(args) {
            Ok(kind) => Ok(ServerPlan::Reboot(kind)),
            Err(error) => Err(error),
        };
    }
    if same_text(name, "reverse") {
        match plan_server_reverse(args) {
            Ok(Some(plan)) => return Ok(plan),
            Ok(None) => {},
            Err(error) => return Err(error),
        }
    }
    if same_text(name, "logcat") {
        return Ok(ServerPlan::Shell(write_logcat_command(args)));
    }
    Err(unsupported("unsupported ADB server command: ", args))
}

/// The fields of a line come back, where none of them holds a tab.
proof fn lemma_four_fields(a: Seq<char>, b: Seq<char>, c: Seq<char>, d: Seq<char>)
    requires
        !a.contains('\t'),
        !b.contains('\t'),
        !c.contains('\t'),
        !d.contains('\t'),
    ensures
        fields(a + seq!['\t'] + b + seq!['\t'] + c + seq!['\t'] + d) == seq![a, b, c, d],
{
    let list = seq![a, b, c, d];
    lemma_join_split(list, '\t');
    assert(list.drop_last() =~= seq![a, b, c]);
    lemma_three_fields(a, b, c);
    assert(join(list, seq!['\t']) == join(seq![a, b, c], seq!['\t']) + seq!['\t'] + d);
}

/// The fields of a line come back, where none of them holds a tab.
proof fn lemma_three_fields(a: Seq<char>, b: Seq<char>, c: Seq<char>)
    requires
        !a.contains('\t'),
        !b.contains('\t'),
        !c.contains('\t'),
    ensures
        join(seq![a, b, c], seq!['\t']) == a + seq!['\t'] + b + seq!['\t'] + c,
        fields(a + seq!['\t'] + b + seq!['\t'] + c) == seq![a, b, c],
{
    let list = seq![a, b, c];
    lemma_join_split(list, '\t');
    assert(list.drop_last() =~= seq![a, b]);
    assert(seq![a, b].drop_last() =~= seq![a]);
    assert(join(seq![a], seq!['\t']) == a);
    assert(join(seq![a, b], seq!['\t']) == a + seq!['\t'] + b);
}

/// The flags of an installation are flags of the package manager.
proof fn lemma_flags(args: Seq<Seq<char>>, index: int, scan: InstallScan)
    requires
        forall|i: int| 0 <= i < scan.flags.len() ==> install_flag(#[trigger] scan.flags[i]),
    ensures
        install_scan(args, index, scan) matches Ok(end) ==> forall|i: int|
            0 <= i < end.flags.len() ==> install_flag(#[trigger] end.flags[i]),
    decreases args.len() - index,
{
    if index < args.len() {
        let arg = args[index];
        if install_flag(arg) {
            lemma_flags(args, index + 1, InstallScan { flags: scan.flags.push(arg), ..scan });
        } else if user_option(arg) {
            if index + 1 < args.len() {
                lemma_flags(
                    args,
                    index + 2,
                    InstallScan { user: Some(args[index + 1]), ..scan },
                );
            }
        } else if !dashed(arg) && scan.source is None {
            lemma_flags(args, index + 1, InstallScan { source: Some(arg), ..scan });
        }
    }
}

/// Digits hold no tab.
proof fn lemma_user_text(user: Option<Seq<char>>)
    requires
        user_valid(user),
    ensures
        all_digits(user_text(user)),
        !user_text(user).contains('\t'),
{
    let text = user_text(user);
    if text.contains('\t') {
        let i = choose|i: int| 0 <= i < text.len() && text[i] == '\t';
        assert('0' <= text[i] <= '9');
    }
}

/// The flags of the package manager, with spaces between them, hold no tab and
/// come back as its words.
proof fn lemma_joined_flags(flags: Seq<Seq<char>>)
    requires
        forall|i: int| 0 <= i < flags.len() ==> install_flag(#[trigger] flags[i]),
    ensures
        words(join(flags, seq![' '])) == flags,
        !join(flags, seq![' ']).contains('\t'),
    decreases flags.len(),
{
    reveal_strlit("-r");
    reveal_strlit("-g");
    reveal_strlit("-d");
    assert forall|i: int, j: int|
        0 <= i < flags.len() && 0 <= j < flags[i].len() implies !is_space(
        #[trigger] flags[i][j],
    ) by {
        assert(install_flag(flags[i]));
    }
    assert forall|i: int| 0 <= i < flags.len() implies (#[trigger] flags[i]).len() > 0 by {
        assert(install_flag(flags[i]));
    }
    lemma_join_words(flags);
    let text = join(flags, seq![' ']);
    if flags.len() > 0 {
        let front = flags.drop_last();
        assert forall|i: int| 0 <= i < front.len() implies install_flag(#[trigger] front[i]) by {
            assert(front[i] == flags[i]);
        }
        lemma_joined_flags(front);
        let last = flags.last();
        assert(install_flag(flags[flags.len() - 1]));
        if text.contains('\t') {
            let i = choose|i: int| 0 <= i < text.len() && text[i] == '\t';
            let before = join(front, seq![' ']);
            if flags.len() == 1 {
                assert(text == last);
            } else if i < before.len() {
                assert(before[i] == '\t');
                assert(before.contains('\t'));
            }
        }
    }
}

/// A request to install reaches the daemon as it was asked: with its file, its
/// flags and its user.
pub proof fn install_requests_reach_the_daemon(args: Seq<Seq<char>>)
    requires
        install_asked(args) is Ok,
    ensures
        ({
            let request = install_asked(args)->Ok_0;
            let flags = join(request.flags, seq![' ']);
            &&& direct_asked(install_line(request)) == Ok::<
                DirectRequest<Seq<char>>,
                Seq<char>,
            >(
                DirectRequest::Install {
                    source: request.source,
                    flags,
                    user: user_text(request.user),
                },
            )
            &&& words(flags) == request.flags
        }),
{
    let request = install_asked(args)->Ok_0;
    let start = InstallScan { flags: seq![], user: None, source: None };
    lemma_flags(args, 1, start);
    let flags = join(request.flags, seq![' ']);
    lemma_joined_flags(request.flags);
    lemma_user_text(request.user);
    let user = user_text(request.user);
    reveal_strlit("INSTALL\t");
    reveal_strlit("INSTALL");
    reveal_strlit("\t");
    reveal_strlit("SHELL");
    reveal_strlit("EXEC");
    reveal_strlit("PULL");
    assert("INSTALL\t"@ =~= "INSTALL"@ + seq!['\t']);
    assert("\t"@ =~= seq!['\t']);
    assert(!"INSTALL"@.contains('\t'));
    lemma_four_fields("INSTALL"@, request.source, flags, user);
    let line = install_line(request);
    assert(fields(line) == seq!["INSTALL"@, request.source, flags, user]);
    assert(fields(line)[0] == "INSTALL"@);
    assert("INSTALL"@.len() == 7 && "SHELL"@.len() == 5 && "EXEC"@.len() == 4 && "PULL"@.len()
        == 4);
}

/// A request to remove a package reaches the daemon as it was asked, unless the
/// name of the package is empty: that the daemon refuses.
pub proof fn uninstall_requests_reach_the_daemon(args: Seq<Seq<char>>)
    requires
        uninstall_asked(args) is Ok,
        uninstall_asked(args)->Ok_0.package.len() > 0,
    ensures
        ({
            let request = uninstall_asked(args)->Ok_0;
            direct_asked(uninstall_line(request)) == Ok::<DirectRequest<Seq<char>>, Seq<char>>(
                DirectRequest::Uninstall {
                    keep: if request.keep_data {
                        "-k"@
                    } else {
                        seq![]
                    },
                    user: user_text(request.user),
                    package: request.package,
                },
            )
        }),
{
    let request = uninstall_asked(args)->Ok_0;
    lemma_user_text(request.user);
    let user = user_text(request.user);
    let keep = if request.keep_data {
        "-k"@
    } else {
        seq![]
    };
    let package = request.package;
    reveal_strlit("UNINSTALL\t");
    reveal_strlit("UNINSTALL");
    reveal_strlit("\t");
    reveal_strlit("-k");
    reveal_strlit("SHELL");
    reveal_strlit("EXEC");
    reveal_strlit("PULL");
    reveal_strlit("INSTALL");
    assert("UNINSTALL\t"@ =~= "UNINSTALL"@ + seq!['\t']);
    assert("\t"@ =~= seq!['\t']);
    assert(!"UNINSTALL"@.contains('\t'));
    if package.contains('\t') {
        let i = choose|i: int| 0 <= i < package.len() && package[i] == '\t';
        assert(package_char(package[i]));
    }
    lemma_four_fields("UNINSTALL"@, keep, user, package);
    let line = uninstall_line(request);
    assert(fields(line) == seq!["UNINSTALL"@, keep, user, package]);
    assert(fields(line)[0] == "UNINSTALL"@);
    assert("UNINSTALL"@.len() == 9 && "SHELL"@.len() == 5 && "EXEC"@.len() == 4 && "PULL"@.len()
        == 4 && "INSTALL"@.len() == 7);
}

/// A command of the shell reaches the daemon whole, whatever it holds.
pub proof fn shell_commands_reach_the_daemon(command: Seq<char>)
    ensures
        direct_asked("SHELL\t"@ + command) == Ok::<DirectRequest<Seq<char>>, Seq<char>>(
            DirectRequest::Shell(command),
        ),
{
    reveal_strlit("SHELL\t");
    reveal_strlit("SHELL");
    assert("SHELL\t"@ =~= "SHELL"@ + seq!['\t']);
    lemma_split_join("SHELL"@, '\t', command);
    lemma_split_fields(command, '\t');
    let single = seq!["SHELL"@];
    assert(!"SHELL"@.contains('\t'));
    lemma_join_split(single, '\t');
    assert(join(single, seq!['\t']) == "SHELL"@);
    let line = "SHELL\t"@ + command;
    assert(fields(line)[0] == "SHELL"@);
    assert(line.skip(6) =~= command);
}

/// A forwarding rule reaches the daemon as it was asked, where no endpoint holds
/// a tab.
pub proof fn forwards_reach_the_daemon(local: Seq<char>, remote: Seq<char>)
    requires
        !local.contains('\t'),
        !remote.contains('\t'),
    ensures
        usb_forward(ForwardRequest::Add(local, remote)) matches UsbPlan::Request(line)
            && direct_asked(line) == Ok::<DirectRequest<Seq<char>>, Seq<char>>(
            DirectRequest::Forward { local, remote },
        ),
{
    reveal_strlit("FORWARD\t");
    reveal_strlit("FORWARD");
    reveal_strlit("\t");
    reveal_strlit("SHELL");
    reveal_strlit("EXEC");
    reveal_strlit("PULL");
    reveal_strlit("INSTALL");
    reveal_strlit("UNINSTALL");
    reveal_strlit("PING");
    reveal_strlit("PUSH");
    reveal_strlit("PUSH_STREAM");
    reveal_strlit("REVERSE");
    reveal_strlit("REVERSE_REMOVE");
    reveal_strlit("REVERSE_LIST");
    reveal_strlit("REVERSE_REMOVE_ALL");
    assert("FORWARD\t"@ =~= "FORWARD"@ + seq!['\t']);
    assert("\t"@ =~= seq!['\t']);
    assert(!"FORWARD"@.contains('\t'));
    lemma_three_fields("FORWARD"@, local, remote);
    let line = "FORWARD\t"@ + local + "\t"@ + remote;
    assert(fields(line) == seq!["FORWARD"@, local, remote]);
    let command = "FORWARD"@;
    assert(fields(line)[0] == command);
    assert(command.len() == 7 && command[0] == 'F');
    assert("INSTALL"@[0] == 'I');
    assert("REVERSE"@[0] == 'R');
}

/// The request of the daemon that runs a command in the shell.
pub fn usb_shell_request(command: &str) -> (line: String)
    ensures
        line@ == "SHELL\t"@ + command@,
{
    plus(copy_text("SHELL\t"), command)
}

/// The request of the daemon that uploads a file.
pub fn usb_push_request(source: &str, remote: &str) -> (line: String)
    ensures
        line@ == "PUSH\t"@ + source@ + "\t"@ + remote@,
{
    plus(plus(plus(copy_text("PUSH\t"), source), "\t"), remote)
}

/// The request of the daemon that downloads a file.
pub fn usb_pull_request(remote: &str) -> (line: String)
    ensures
        line@ == "PULL\t"@ + remote@,
{
    plus(copy_text("PULL\t"), remote)
}

/// An upload reaches the daemon with its paths, where transfers accept them.
pub proof fn uploads_reach_the_daemon(source: Seq<char>, remote: Seq<char>)
    requires
        path_valid(source),
        path_valid(remote),
    ensures
        direct_asked("PUSH\t"@ + source + "\t"@ + remote) == Ok::<
            DirectRequest<Seq<char>>,
            Seq<char>,
        >(DirectRequest::Push { source, destination: remote }),
{
    reveal_strlit("PUSH\t");
    reveal_strlit("PUSH");
    reveal_strlit("\t");
    reveal_strlit("SHELL");
    reveal_strlit("EXEC");
    reveal_strlit("PULL");
    reveal_strlit("INSTALL");
    reveal_strlit("UNINSTALL");
    reveal_strlit("PING");
    assert("PUSH\t"@ =~= "PUSH"@ + seq!['\t']);
    assert("\t"@ =~= seq!['\t']);
    assert(!"PUSH"@.contains('\t'));
    lemma_three_fields("PUSH"@, source, remote);
    let line = "PUSH\t"@ + source + "\t"@ + remote;
    assert(fields(line) == seq!["PUSH"@, source, remote]);
    let command = "PUSH"@;
    assert(fields(line)[0] == command);
    assert(command[0] == 'P' && command[1] == 'U' && command[2] == 'S');
    assert("EXEC"@[0] == 'E');
    assert("PULL"@[2] == 'L');
    assert("PING"@[1] == 'I');
}

/// The outcome of a shell command of a server, from its exit status.
pub fn judge_status(status: Option<u8>) -> (judged: Result<(), String>)
    ensures
        match status {
            Some(code) => if code == 0 {
                judged is Ok
            } else {
                complains(judged, "remote shell exited with status "@ + decimal(code as nat))
            },
            None => judged is Ok,
        },
{
    match status {
        Some(code) => {
            if code == 0 {
                Ok(())
            } else {
                Err(
                    plus(
                        copy_text("remote shell exited with status "),
                        &format_decimal(code as u64),
                    ),
                )
            }
        },
        None => Ok(()),
    }
}

/// A forwarding rule keeps its sides all the way from the command line to the device: the
/// end that is named first is the one on the host.
pub proof fn forwarding_rules_keep_their_sides(
    local: Seq<char>,
    remote: Seq<char>,
    device: DeviceFacts,
    serial: Option<Seq<char>>,
    stamp: Seq<char>,
)
    requires
        !local.contains('\t'),
        !remote.contains('\t'),
        local.len() == 0 || local[0] != '-',
    ensures
        ({
            let args = seq!["forward"@, local, remote];
            let call = Work::<Seq<char>, Seq<u8>>::Call(DeviceCall::Forward { local, remote });
            &&& usb_planned(args, device) matches Ok(UsbPlan::Request(line)) && direct_asked(
                line,
            ) matches Ok(request) && direct_begin(request, stamp).1 == call
            &&& wireless_forward_planned(args) matches Ok(Some(ForwardPlan::Request(line)))
                && wireless_asked(line) matches Ok(request) && wireless_begin(request).1 == call
            &&& server_planned(args, serial) == Ok::<
                ServerPlan<Seq<char>, Transfer, Install>,
                Seq<char>,
            >(ServerPlan::Forward { remote, local })
        }),
{
    reveal_strlit("FORWARD\t");
    reveal_strlit("FORWARD");
    reveal_strlit("\t");
    assert("FORWARD\t"@ =~= "FORWARD"@ + seq!['\t']);
    assert("\t"@ =~= seq!['\t']);
    forwards_are_understood(local, remote, seq!["forward"@, local, remote]);
    pairs_keep_their_order(local, remote);
    rules_over_tcp_are_understood(local, remote, local);
    requests_become_calls(local, remote, 0, stamp);
    assert("FORWARD\t"@ + local + "\t"@ + remote =~= "FORWARD"@ + seq!['\t'] + local + seq!['\t']
        + remote);
}

/// A rule is removed by its end on the host, all rules are removed at once, and the rules
/// are listed and shown: all the way from the command line to the device.
pub proof fn forwarding_rules_are_managed(
    local: Seq<char>,
    device: DeviceFacts,
    serial: Option<Seq<char>>,
    stamp: Seq<char>,
)
    requires
        !local.contains('\t'),
    ensures
        ({
            let one = seq!["forward"@, "--remove"@, local];
            let all = seq!["forward"@, "--remove-all"@];
            let list = seq!["forward"@, "--list"@];
            let removal = Work::<Seq<char>, Seq<u8>>::Call(DeviceCall::ForwardRemove(local));
            let removals = Work::<Seq<char>, Seq<u8>>::Call(DeviceCall::ForwardRemoveAll);
            let listing = Work::<Seq<char>, Seq<u8>>::Call(DeviceCall::ForwardRoutes);
            &&& usb_planned(one, device) matches Ok(UsbPlan::Request(line)) && direct_asked(
                line,
            ) matches Ok(request) && direct_begin(request, stamp).1 == removal
            &&& usb_planned(all, device) matches Ok(UsbPlan::Request(line)) && direct_asked(
                line,
            ) matches Ok(request) && direct_begin(request, stamp).1 == removals
            &&& usb_planned(list, device) matches Ok(UsbPlan::RequestAndShow(line))
                && direct_asked(line) matches Ok(request) && direct_begin(request, stamp).1
                == listing
            &&& wireless_forward_planned(one) matches Ok(Some(ForwardPlan::Request(line)))
                && wireless_asked(line) matches Ok(request) && wireless_begin(request).1 == removal
            &&& wireless_forward_planned(all) matches Ok(Some(ForwardPlan::Request(line)))
                && wireless_asked(line) matches Ok(request) && wireless_begin(request).1
                == removals
            &&& wireless_forward_planned(list) matches Ok(Some(ForwardPlan::RequestAndShow(line)))
                && wireless_asked(line) matches Ok(request) && wireless_begin(request).1 == listing
            &&& server_planned(one, serial) == Ok::<
                ServerPlan<Seq<char>, Transfer, Install>,
                Seq<char>,
            >(ServerPlan::ForwardRemove(local))
            &&& server_planned(all, serial) == Ok::<
                ServerPlan<Seq<char>, Transfer, Install>,
                Seq<char>,
            >(ServerPlan::ForwardRemoveAll)
        }),
{
    reveal_strlit("FORWARD_REMOVE\t");
    reveal_strlit("FORWARD_REMOVE");
    reveal_strlit("REMOVE\t");
    reveal_strlit("REMOVE");
    assert("FORWARD_REMOVE\t"@ =~= "FORWARD_REMOVE"@ + seq!['\t']);
    assert("REMOVE\t"@ =~= "REMOVE"@ + seq!['\t']);
    forwards_are_understood(local, local, seq![]);
    single_fields_are_kept(local);
    words_alone_are_understood();
    rules_over_tcp_are_understood(local, local, local);
    requests_become_calls(local, local, 0, stamp);
}

/// A reverse route keeps its sides all the way from the command line to the device: the
/// end that is named first is the one on the device.
pub proof fn reverse_routes_keep_their_sides(
    remote: Seq<char>,
    local: Seq<char>,
    device: DeviceFacts,
    address: Seq<char>,
    serial: Option<Seq<char>>,
    stamp: Seq<char>,
)
    requires
        !local.contains('\t'),
        !remote.contains('\t'),
        remote != "--remove"@,
    ensures
        ({
            let args = seq!["reverse"@, remote, local];
            let one = seq!["reverse"@, "--remove"@, remote];
            let call = Work::<Seq<char>, Seq<u8>>::Call(DeviceCall::Reverse { remote, local });
            let removal = Work::<Seq<char>, Seq<u8>>::Call(DeviceCall::ReverseRemove(remote));
            &&& usb_planned(args, device) matches Ok(UsbPlan::Request(line)) && direct_asked(
                line,
            ) matches Ok(request) && direct_begin(request, stamp).1 == call
            &&& usb_planned(one, device) matches Ok(UsbPlan::Request(line)) && direct_asked(
                line,
            ) matches Ok(request) && direct_begin(request, stamp).1 == removal
            &&& wireless_planned(args, address) == Ok::<
                WirelessPlan<Seq<char>, Transfer, Install, Uninstall>,
                Seq<char>,
            >(WirelessPlan::ServeReverse(remote, local))
            &&& wireless_planned(one, address) == Ok::<
                WirelessPlan<Seq<char>, Transfer, Install, Uninstall>,
                Seq<char>,
            >(WirelessPlan::RemoveReverse(remote))
            &&& server_planned(args, serial) == Ok::<
                ServerPlan<Seq<char>, Transfer, Install>,
                Seq<char>,
            >(ServerPlan::Reverse { remote, local })
            &&& server_planned(one, serial) == Ok::<
                ServerPlan<Seq<char>, Transfer, Install>,
                Seq<char>,
            >(ServerPlan::ReverseRemove(remote))
        }),
{
    reveal_strlit("forward");
    reveal_strlit("get-state");
    reveal_strlit("get-serialno");
    reveal_strlit("get-devpath");
    reveal_strlit("root");
    reveal_strlit("remount");
    reveal_strlit("tcpip");
    reveal_strlit("logcat");
    reveal_strlit("stat");
    reveal_strlit("stat2");
    reveal_strlit("shell");
    reveal_strlit("exec-out");
    reveal_strlit("pull-stream");
    reveal_strlit("pull");
    reveal_strlit("install");
    reveal_strlit("uninstall");
    reveal_strlit("reboot");
    reveal_strlit("push");
    reveal_strlit("sync");
    reveal_strlit("reverse");
    reveal_strlit("features");
    reveal_strlit("--remove");
    reveal_strlit("--list");
    reveal_strlit("--remove-all");
    reveal_strlit("REVERSE\t");
    reveal_strlit("REVERSE");
    reveal_strlit("REVERSE_REMOVE\t");
    reveal_strlit("REVERSE_REMOVE");
    reveal_strlit("\t");
    assert("root"@[2] == 'o' && "stat"@[2] == 'a' && "pull"@[2] == 'l' && "push"@[2] == 's'
        && "sync"@[2] == 'n');
    assert("tcpip"@[1] == 'c' && "stat2"@[1] == 't' && "shell"@[1] == 'h');
    assert("logcat"@[0] == 'l' && "reboot"@[0] == 'r');
    assert("forward"@[2] == 'r' && "remount"@[2] == 'm' && "install"@[2] == 's' && "reverse"@[2]
        == 'v');
    assert("get-state"@[0] == 'g' && "uninstall"@[0] == 'u');
    assert("get-devpath"@[0] == 'g' && "pull-stream"@[0] == 'p');
    assert("features"@[0] == 'f' && "exec-out"@[0] == 'e');
    assert("forward"@.len() == 7);
    assert("get-state"@.len() == 9);
    assert("get-serialno"@.len() == 12);
    assert("get-devpath"@.len() == 11);
    assert("root"@.len() == 4);
    assert("remount"@.len() == 7);
    assert("tcpip"@.len() == 5);
    assert("logcat"@.len() == 6);
    assert("stat"@.len() == 4);
    assert("stat2"@.len() == 5);
    assert("shell"@.len() == 5);
    assert("exec-out"@.len() == 8);
    assert("pull-stream"@.len() == 11);
    assert("pull"@.len() == 4);
    assert("install"@.len() == 7);
    assert("uninstall"@.len() == 9);
    assert("reboot"@.len() == 6);
    assert("push"@.len() == 4);
    assert("sync"@.len() == 4);
    assert("reverse"@.len() == 7);
    assert("features"@.len() == 8);
    let args = seq!["reverse"@, remote, local];
    let one = seq!["reverse"@, "--remove"@, remote];
    assert(args[0] == "reverse"@ && one[0] == "reverse"@ && one[1] == "--remove"@);
    assert("REVERSE\t"@ =~= "REVERSE"@ + seq!['\t']);
    assert("REVERSE_REMOVE\t"@ =~= "REVERSE_REMOVE"@ + seq!['\t']);
    assert("\t"@ =~= seq!['\t']);
    pairs_keep_their_order(remote, local);
    single_fields_are_kept(remote);
    requests_become_calls(remote, local, 0, stamp);
    assert("REVERSE\t"@ + remote + "\t"@ + local =~= "REVERSE"@ + seq!['\t'] + remote + seq!['\t']
        + local);
    assert(forward_asked(args) == Ok::<Option<ForwardRequest<Seq<char>>>, Seq<char>>(None));
    assert(forward_asked(one) == Ok::<Option<ForwardRequest<Seq<char>>>, Seq<char>>(None));
}

/// What a device on the bus is asked for a command. A command of the shell is all that
/// stands behind the options of a terminal, with a space between its words.
pub proof fn commands_for_the_bus(args: Seq<Seq<char>>, device: DeviceFacts)
    requires
        args.len() > 0,
    ensures
        ({
            let plan = usb_planned(args, device);
            let words = join(args.skip(command_start(args, 1)), seq![' ']);
            let alone = args.len() == 1;
            &&& args[0] == "shell"@ ==> plan == Ok::<UsbPlan<Seq<char>, Transfer>, Seq<char>>(
                UsbPlan::Stream("SHELL"@ + seq!['\t'] + words),
            )
            &&& args[0] == "exec-out"@ ==> plan == Ok::<UsbPlan<Seq<char>, Transfer>, Seq<char>>(
                UsbPlan::Stream("EXEC"@ + seq!['\t'] + words),
            )
            &&& args[0] == "pull-stream"@ && args.len() == 2 ==> plan == Ok::<
                UsbPlan<Seq<char>, Transfer>,
                Seq<char>,
            >(UsbPlan::Stream("PULL"@ + seq!['\t'] + args[1]))
            &&& args[0] == "logcat"@ ==> plan == Ok::<UsbPlan<Seq<char>, Transfer>, Seq<char>>(
                UsbPlan::Stream("SHELL"@ + seq!['\t'] + join(args, seq![' '])),
            )
            &&& args[0] == "root"@ && alone ==> plan == Ok::<
                UsbPlan<Seq<char>, Transfer>,
                Seq<char>,
            >(UsbPlan::Request("ROOT"@))
            &&& args[0] == "remount"@ && alone ==> plan == Ok::<
                UsbPlan<Seq<char>, Transfer>,
                Seq<char>,
            >(UsbPlan::Request("REMOUNT"@))
            &&& args[0] == "get-state"@ ==> plan == Ok::<UsbPlan<Seq<char>, Transfer>, Seq<char>>(
                UsbPlan::Print("device"@),
            )
            &&& args[0] == "get-serialno"@ ==> plan == Ok::<
                UsbPlan<Seq<char>, Transfer>,
                Seq<char>,
            >(UsbPlan::PrintSerial)
            &&& args[0] == "sync"@ ==> plan == Ok::<UsbPlan<Seq<char>, Transfer>, Seq<char>>(
                UsbPlan::Sync,
            )
            &&& args[0] == "pull"@ && transfer_asked(args, "pull"@) is Ok ==> plan == Ok::<
                UsbPlan<Seq<char>, Transfer>,
                Seq<char>,
            >(UsbPlan::Pull(transfer_asked(args, "pull"@)->Ok_0))
            &&& args[0] == "push"@ && transfer_asked(args, "push"@) is Ok ==> plan == Ok::<
                UsbPlan<Seq<char>, Transfer>,
                Seq<char>,
            >(UsbPlan::Push(transfer_asked(args, "push"@)->Ok_0))
            &&& args[0] == "pull"@ && transfer_asked(args, "pull"@) is Err ==> plan is Err
            &&& args[0] == "push"@ && transfer_asked(args, "push"@) is Err ==> plan is Err
            &&& args[0] == "install"@ && install_asked(args) is Ok ==> plan == Ok::<
                UsbPlan<Seq<char>, Transfer>,
                Seq<char>,
            >(UsbPlan::RequestAndShow(install_line(install_asked(args)->Ok_0)))
            &&& args[0] == "uninstall"@ && uninstall_asked(args) is Ok ==> plan == Ok::<
                UsbPlan<Seq<char>, Transfer>,
                Seq<char>,
            >(UsbPlan::RequestAndShow(uninstall_line(uninstall_asked(args)->Ok_0)))
            &&& (args[0] == "install"@ && install_asked(args) is Err || args[0] == "uninstall"@
                && uninstall_asked(args) is Err) ==> plan is Err
            &&& args[0] == "reboot"@ && alone ==> plan == Ok::<
                UsbPlan<Seq<char>, Transfer>,
                Seq<char>,
            >(UsbPlan::Request("SHELL"@ + seq!['\t'] + "reboot "@))
            &&& args[0] == "reboot"@ && args.len() == 2 && (args[1] == "bootloader"@ || args[1]
                == "recovery"@ || args[1] == "sideload"@) ==> plan == Ok::<
                UsbPlan<Seq<char>, Transfer>,
                Seq<char>,
            >(UsbPlan::Request("SHELL"@ + seq!['\t'] + "reboot "@ + args[1]))
        }),
{
    reveal_strlit("forward");
    reveal_strlit("get-state");
    reveal_strlit("get-serialno");
    reveal_strlit("get-devpath");
    reveal_strlit("root");
    reveal_strlit("remount");
    reveal_strlit("tcpip");
    reveal_strlit("logcat");
    reveal_strlit("stat");
    reveal_strlit("stat2");
    reveal_strlit("shell");
    reveal_strlit("exec-out");
    reveal_strlit("pull-stream");
    reveal_strlit("pull");
    reveal_strlit("install");
    reveal_strlit("uninstall");
    reveal_strlit("reboot");
    reveal_strlit("push");
    reveal_strlit("sync");
    reveal_strlit("reverse");
    reveal_strlit("features");
    reveal_strlit("SHELL\t");
    reveal_strlit("SHELL");
    reveal_strlit("EXEC\t");
    reveal_strlit("EXEC");
    reveal_strlit("PULL\t");
    reveal_strlit("PULL");
    reveal_strlit("logcat ");
    reveal_strlit("SHELL\treboot ");
    reveal_strlit("reboot ");
    reveal_strlit("logcat");
    assert("root"@[2] == 'o' && "stat"@[2] == 'a' && "pull"@[2] == 'l' && "push"@[2] == 's'
        && "sync"@[2] == 'n');
    assert("tcpip"@[1] == 'c' && "stat2"@[1] == 't' && "shell"@[1] == 'h');
    assert("logcat"@[0] == 'l' && "reboot"@[0] == 'r');
    assert("forward"@[2] == 'r' && "remount"@[2] == 'm' && "install"@[2] == 's' && "reverse"@[2]
        == 'v');
    assert("get-state"@[0] == 'g' && "uninstall"@[0] == 'u');
    assert("get-devpath"@[0] == 'g' && "pull-stream"@[0] == 'p');
    assert("features"@[0] == 'f' && "exec-out"@[0] == 'e');
    assert("forward"@.len() == 7);
    assert("get-state"@.len() == 9);
    assert("get-serialno"@.len() == 12);
    assert("get-devpath"@.len() == 11);
    assert("root"@.len() == 4);
    assert("remount"@.len() == 7);
    assert("tcpip"@.len() == 5);
    assert("logcat"@.len() == 6);
    assert("stat"@.len() == 4);
    assert("stat2"@.len() == 5);
    assert("shell"@.len() == 5);
    assert("exec-out"@.len() == 8);
    assert("pull-stream"@.len() == 11);
    assert("pull"@.len() == 4);
    assert("install"@.len() == 7);
    assert("uninstall"@.len() == 9);
    assert("reboot"@.len() == 6);
    assert("push"@.len() == 4);
    assert("sync"@.len() == 4);
    assert("reverse"@.len() == 7);
    assert("features"@.len() == 8);
    assert("SHELL\t"@ =~= "SHELL"@ + seq!['\t']);
    assert("EXEC\t"@ =~= "EXEC"@ + seq!['\t']);
    assert("PULL\t"@ =~= "PULL"@ + seq!['\t']);
    assert("SHELL\treboot "@ =~= "SHELL"@ + seq!['\t'] + "reboot "@);
    if args[0] == "logcat"@ {
        if args.len() == 1 {
            assert(join(args, seq![' ']) == args[0]);
        } else {
            lemma_join_first(args, seq![' ']);
            assert(args.skip(1) =~= args.drop_first());
            assert("logcat "@ =~= "logcat"@ + seq![' ']);
            assert("logcat "@ + spoken(args, 1) =~= join(args, seq![' ']));
        }
        assert("SHELL\t"@ + logcat_command(args) =~= "SHELL"@ + seq!['\t'] + join(
            args,
            seq![' '],
        ));
    }
    if args[0] == "reboot"@ {
        if args.len() == 1 {
            assert("SHELL\treboot "@ + Seq::<char>::empty() =~= "SHELL"@ + seq!['\t']
                + "reboot "@);
        }
    }
}

/// What a device over TCP is asked for a command. A command of the shell is all that
/// stands behind the word, with a space between its words.
pub proof fn commands_over_tcp(args: Seq<Seq<char>>, address: Seq<char>)
    requires
        args.len() > 0,
    ensures
        ({
            let plan = wireless_planned(args, address);
            let words = join(args.skip(1), seq![' ']);
            let alone = args.len() == 1;
            &&& args[0] == "shell"@ ==> plan == Ok::<
                WirelessPlan<Seq<char>, Transfer, Install, Uninstall>,
                Seq<char>,
            >(WirelessPlan::Shell(words))
            &&& args[0] == "exec-out"@ ==> plan == Ok::<
                WirelessPlan<Seq<char>, Transfer, Install, Uninstall>,
                Seq<char>,
            >(WirelessPlan::Exec(words))
            &&& args[0] == "pull-stream"@ && args.len() == 2 ==> plan == Ok::<
                WirelessPlan<Seq<char>, Transfer, Install, Uninstall>,
                Seq<char>,
            >(WirelessPlan::PullStream(args[1]))
            &&& args[0] == "get-state"@ && alone ==> plan == Ok::<
                WirelessPlan<Seq<char>, Transfer, Install, Uninstall>,
                Seq<char>,
            >(WirelessPlan::Print("device"@))
            &&& args[0] == "get-serialno"@ && alone ==> plan == Ok::<
                WirelessPlan<Seq<char>, Transfer, Install, Uninstall>,
                Seq<char>,
            >(WirelessPlan::Print(address))
            &&& args[0] == "get-devpath"@ && alone ==> plan == Ok::<
                WirelessPlan<Seq<char>, Transfer, Install, Uninstall>,
                Seq<char>,
            >(WirelessPlan::Print("tcp:"@ + address))
            &&& args[0] == "features"@ && alone ==> plan == Ok::<
                WirelessPlan<Seq<char>, Transfer, Install, Uninstall>,
                Seq<char>,
            >(WirelessPlan::Print("shell_v2,cmd,sendrecv_v2"@))
            &&& args[0] == "sync"@ ==> plan == Ok::<
                WirelessPlan<Seq<char>, Transfer, Install, Uninstall>,
                Seq<char>,
            >(WirelessPlan::Sync)
            &&& args[0] == "root"@ && alone ==> plan == Ok::<
                WirelessPlan<Seq<char>, Transfer, Install, Uninstall>,
                Seq<char>,
            >(WirelessPlan::Root)
            &&& args[0] == "remount"@ && alone ==> plan == Ok::<
                WirelessPlan<Seq<char>, Transfer, Install, Uninstall>,
                Seq<char>,
            >(WirelessPlan::Remount)
            &&& args[0] == "reboot"@ && alone ==> plan == Ok::<
                WirelessPlan<Seq<char>, Transfer, Install, Uninstall>,
                Seq<char>,
            >(WirelessPlan::Reboot)
            &&& args[0] == "pull"@ && transfer_asked(args, "pull"@) is Ok ==> plan == Ok::<
                WirelessPlan<Seq<char>, Transfer, Install, Uninstall>,
                Seq<char>,
            >(WirelessPlan::Pull(transfer_asked(args, "pull"@)->Ok_0))
            &&& args[0] == "push"@ && transfer_asked(args, "push"@) is Ok ==> plan == Ok::<
                WirelessPlan<Seq<char>, Transfer, Install, Uninstall>,
                Seq<char>,
            >(WirelessPlan::Push(transfer_asked(args, "push"@)->Ok_0))
            &&& args[0] == "install"@ && install_asked(args) is Ok ==> plan == Ok::<
                WirelessPlan<Seq<char>, Transfer, Install, Uninstall>,
                Seq<char>,
            >(WirelessPlan::Install(install_asked(args)->Ok_0))
            &&& args[0] == "uninstall"@ && uninstall_asked(args) is Ok ==> plan == Ok::<
                WirelessPlan<Seq<char>, Transfer, Install, Uninstall>,
                Seq<char>,
            >(WirelessPlan::Uninstall(uninstall_asked(args)->Ok_0))
        }),
{
    reveal_strlit("forward");
    reveal_strlit("get-state");
    reveal_strlit("get-serialno");
    reveal_strlit("get-devpath");
    reveal_strlit("root");
    reveal_strlit("remount");
    reveal_strlit("tcpip");
    reveal_strlit("logcat");
    reveal_strlit("stat");
    reveal_strlit("stat2");
    reveal_strlit("shell");
    reveal_strlit("exec-out");
    reveal_strlit("pull-stream");
    reveal_strlit("pull");
    reveal_strlit("install");
    reveal_strlit("uninstall");
    reveal_strlit("reboot");
    reveal_strlit("push");
    reveal_strlit("sync");
    reveal_strlit("reverse");
    reveal_strlit("features");
    assert("root"@[2] == 'o' && "stat"@[2] == 'a' && "pull"@[2] == 'l' && "push"@[2] == 's'
        && "sync"@[2] == 'n');
    assert("tcpip"@[1] == 'c' && "stat2"@[1] == 't' && "shell"@[1] == 'h');
    assert("logcat"@[0] == 'l' && "reboot"@[0] == 'r');
    assert("forward"@[2] == 'r' && "remount"@[2] == 'm' && "install"@[2] == 's' && "reverse"@[2]
        == 'v');
    assert("get-state"@[0] == 'g' && "uninstall"@[0] == 'u');
    assert("get-devpath"@[0] == 'g' && "pull-stream"@[0] == 'p');
    assert("features"@[0] == 'f' && "exec-out"@[0] == 'e');
    assert("forward"@.len() == 7);
    assert("get-state"@.len() == 9);
    assert("get-serialno"@.len() == 12);
    assert("get-devpath"@.len() == 11);
    assert("root"@.len() == 4);
    assert("remount"@.len() == 7);
    assert("tcpip"@.len() == 5);
    assert("logcat"@.len() == 6);
    assert("stat"@.len() == 4);
    assert("stat2"@.len() == 5);
    assert("shell"@.len() == 5);
    assert("exec-out"@.len() == 8);
    assert("pull-stream"@.len() == 11);
    assert("pull"@.len() == 4);
    assert("install"@.len() == 7);
    assert("uninstall"@.len() == 9);
    assert("reboot"@.len() == 6);
    assert("push"@.len() == 4);
    assert("sync"@.len() == 4);
    assert("reverse"@.len() == 7);
    assert("features"@.len() == 8);
}

/// What a device behind a server is asked for a command.
pub proof fn commands_for_a_server(args: Seq<Seq<char>>, serial: Option<Seq<char>>)
    requires
        args.len() > 0,
    ensures
        ({
            let plan = server_planned(args, serial);
            let words = join(args.skip(command_start(args, 1)), seq![' ']);
            let alone = args.len() == 1;
            &&& args[0] == "shell"@ || args[0] == "exec-out"@ ==> plan == Ok::<
                ServerPlan<Seq<char>, Transfer, Install>,
                Seq<char>,
            >(ServerPlan::Shell(words))
            &&& args[0] == "logcat"@ ==> plan == Ok::<
                ServerPlan<Seq<char>, Transfer, Install>,
                Seq<char>,
            >(ServerPlan::Shell(join(args, seq![' '])))
            &&& args[0] == "pull-stream"@ && args.len() == 2 ==> plan == Ok::<
                ServerPlan<Seq<char>, Transfer, Install>,
                Seq<char>,
            >(ServerPlan::PullStream(args[1]))
            &&& args[0] == "get-state"@ && alone ==> plan == Ok::<
                ServerPlan<Seq<char>, Transfer, Install>,
                Seq<char>,
            >(ServerPlan::Print("device"@))
            &&& args[0] == "get-serialno"@ && alone ==> plan == Ok::<
                ServerPlan<Seq<char>, Transfer, Install>,
                Seq<char>,
            >(
                match serial {
                    Some(serial) => ServerPlan::Print(serial),
                    None => ServerPlan::ShowOutput("getprop ro.serialno"@),
                },
            )
            &&& args[0] == "features"@ && alone ==> plan == Ok::<
                ServerPlan<Seq<char>, Transfer, Install>,
                Seq<char>,
            >(ServerPlan::PrintFeatures)
            &&& args[0] == "sync"@ ==> plan == Ok::<
                ServerPlan<Seq<char>, Transfer, Install>,
                Seq<char>,
            >(ServerPlan::Sync)
            &&& args[0] == "root"@ && alone ==> plan == Ok::<
                ServerPlan<Seq<char>, Transfer, Install>,
                Seq<char>,
            >(ServerPlan::Root)
            &&& args[0] == "remount"@ && alone ==> plan == Ok::<
                ServerPlan<Seq<char>, Transfer, Install>,
                Seq<char>,
            >(ServerPlan::Remount)
            &&& args[0] == "reboot"@ && alone ==> plan == Ok::<
                ServerPlan<Seq<char>, Transfer, Install>,
                Seq<char>,
            >(ServerPlan::Reboot(RebootType::System))
            &&& args[0] == "reboot"@ && args.len() == 2 ==> plan == (if args[1] == "bootloader"@ {
                Ok::<ServerPlan<Seq<char>, Transfer, Install>, Seq<char>>(
                    ServerPlan::Reboot(RebootType::Bootloader),
                )
            } else if args[1] == "recovery"@ {
                Ok(ServerPlan::Reboot(RebootType::Recovery))
            } else if args[1] == "sideload"@ {
                Ok(ServerPlan::Reboot(RebootType::Sideload))
            } else {
                Err("unsupported reboot mode: "@ + args[1])
            })
            &&& args[0] == "pull"@ && transfer_asked(args, "pull"@) is Ok ==> plan == Ok::<
                ServerPlan<Seq<char>, Transfer, Install>,
                Seq<char>,
            >(ServerPlan::Pull(transfer_asked(args, "pull"@)->Ok_0))
            &&& args[0] == "push"@ && transfer_asked(args, "push"@) is Ok ==> plan == Ok::<
                ServerPlan<Seq<char>, Transfer, Install>,
                Seq<char>,
            >(ServerPlan::Push(transfer_asked(args, "push"@)->Ok_0))
            &&& args[0] == "install"@ && install_asked(args) is Ok ==> plan == Ok::<
                ServerPlan<Seq<char>, Transfer, Install>,
                Seq<char>,
            >(ServerPlan::Install(install_asked(args)->Ok_0))
            &&& args[0] == "uninstall"@ && uninstall_asked(args) is Ok ==> {
                let request = uninstall_asked(args)->Ok_0;
                plan == Ok::<ServerPlan<Seq<char>, Transfer, Install>, Seq<char>>(
                    ServerPlan::Shell(
                        "pm uninstall"@ + (if request.keep_data {
                            " -k"@
                        } else {
                            seq![]
                        }) + (match request.user {
                            Some(user) => " --user "@ + shell_word(user),
                            None => seq![],
                        }) + " "@ + shell_word(request.package),
                    ),
                )
            }
        }),
{
    reveal_strlit("forward");
    reveal_strlit("get-state");
    reveal_strlit("get-serialno");
    reveal_strlit("get-devpath");
    reveal_strlit("root");
    reveal_strlit("remount");
    reveal_strlit("tcpip");
    reveal_strlit("logcat");
    reveal_strlit("stat");
    reveal_strlit("stat2");
    reveal_strlit("shell");
    reveal_strlit("exec-out");
    reveal_strlit("pull-stream");
    reveal_strlit("pull");
    reveal_strlit("install");
    reveal_strlit("uninstall");
    reveal_strlit("reboot");
    reveal_strlit("push");
    reveal_strlit("sync");
    reveal_strlit("reverse");
    reveal_strlit("features");
    reveal_strlit("logcat ");
    reveal_strlit("bootloader");
    reveal_strlit("recovery");
    reveal_strlit("sideload");
    assert("root"@[2] == 'o' && "stat"@[2] == 'a' && "pull"@[2] == 'l' && "push"@[2] == 's'
        && "sync"@[2] == 'n');
    assert("tcpip"@[1] == 'c' && "stat2"@[1] == 't' && "shell"@[1] == 'h');
    assert("logcat"@[0] == 'l' && "reboot"@[0] == 'r');
    assert("forward"@[2] == 'r' && "remount"@[2] == 'm' && "install"@[2] == 's' && "reverse"@[2]
        == 'v');
    assert("get-state"@[0] == 'g' && "uninstall"@[0] == 'u');
    assert("get-devpath"@[0] == 'g' && "pull-stream"@[0] == 'p');
    assert("features"@[0] == 'f' && "exec-out"@[0] == 'e');
    assert("forward"@.len() == 7);
    assert("get-state"@.len() == 9);
    assert("get-serialno"@.len() == 12);
    assert("get-devpath"@.len() == 11);
    assert("root"@.len() == 4);
    assert("remount"@.len() == 7);
    assert("tcpip"@.len() == 5);
    assert("logcat"@.len() == 6);
    assert("stat"@.len() == 4);
    assert("stat2"@.len() == 5);
    assert("shell"@.len() == 5);
    assert("exec-out"@.len() == 8);
    assert("pull-stream"@.len() == 11);
    assert("pull"@.len() == 4);
    assert("install"@.len() == 7);
    assert("uninstall"@.len() == 9);
    assert("reboot"@.len() == 6);
    assert("push"@.len() == 4);
    assert("sync"@.len() == 4);
    assert("reverse"@.len() == 7);
    assert("features"@.len() == 8);
    assert("recovery"@[0] == 'r' && "sideload"@[0] == 's');
    if args[0] == "logcat"@ {
        if args.len() == 1 {
            assert(join(args, seq![' ']) == args[0]);
        } else {
            lemma_join_first(args, seq![' ']);
            assert(args.skip(1) =~= args.drop_first());
            assert("logcat "@ =~= "logcat"@ + seq![' ']);
            assert("logcat "@ + spoken(args, 1) =~= join(args, seq![' ']));
        }
    }
}

/// What the daemon gets for a command that was understood: the shell command, the raw
/// command or the path as they are, and each of the rest as the word that it knows.
pub proof fn lines_for_the_daemon_are_understood(text: Seq<char>)
    ensures
        direct_asked("SHELL"@ + seq!['\t'] + text) == Ok::<DirectRequest<Seq<char>>, Seq<char>>(
            DirectRequest::Shell(text),
        ),
        direct_asked("EXEC"@ + seq!['\t'] + text) == Ok::<DirectRequest<Seq<char>>, Seq<char>>(
            DirectRequest::Exec(text),
        ),
        direct_asked("PULL"@ + seq!['\t'] + text) == Ok::<DirectRequest<Seq<char>>, Seq<char>>(
            DirectRequest::Pull(text),
        ),
        direct_asked("ROOT"@) == Ok::<DirectRequest<Seq<char>>, Seq<char>>(DirectRequest::Root),
        direct_asked("REMOUNT"@) == Ok::<DirectRequest<Seq<char>>, Seq<char>>(
            DirectRequest::Remount,
        ),
{
    commands_are_what_stands_behind_their_word(text);
    words_alone_are_understood();
}

/// The lines that ask the daemon to install a package or to remove one.
pub proof fn package_lines_hold_their_fields(request: Install, removal: Uninstall)
    ensures
        install_line(request) == "INSTALL\t"@ + request.source + "\t"@ + join(
            request.flags,
            seq![' '],
        ) + "\t"@ + (match request.user {
            Some(user) => user,
            None => seq![],
        }),
        uninstall_line(removal) == "UNINSTALL\t"@ + (if removal.keep_data {
            "-k"@
        } else {
            seq![]
        }) + "\t"@ + (match removal.user {
            Some(user) => user,
            None => seq![],
        }) + "\t"@ + removal.package,
{
}

/// A command that has no place on a device is refused with its words, by each way to a
/// device.
pub proof fn other_commands_are_refused(
    args: Seq<Seq<char>>,
    device: DeviceFacts,
    address: Seq<char>,
    serial: Option<Seq<char>>,
)
    requires
        args.len() > 0,
        args[0] != "forward"@,
        args[0] != "get-state"@,
        args[0] != "get-serialno"@,
        args[0] != "get-devpath"@,
        args[0] != "features"@,
        args[0] != "root"@,
        args[0] != "remount"@,
        args[0] != "tcpip"@,
        args[0] != "logcat"@,
        args[0] != "stat"@,
        args[0] != "stat2"@,
        args[0] != "shell"@,
        args[0] != "exec-out"@,
        args[0] != "pull-stream"@,
        args[0] != "pull"@,
        args[0] != "install"@,
        args[0] != "uninstall"@,
        args[0] != "reboot"@,
        args[0] != "push"@,
        args[0] != "sync"@,
        args[0] != "reverse"@,
    ensures
        usb_planned(args, device) == Err::<UsbPlan<Seq<char>, Transfer>, Seq<char>>(
            "unsupported direct-USB command: "@ + join(args, " "@),
        ),
        wireless_planned(args, address) == Err::<
            WirelessPlan<Seq<char>, Transfer, Install, Uninstall>,
            Seq<char>,
        >("unsupported wireless command: "@ + join(args, " "@)),
        server_planned(args, serial) == Err::<ServerPlan<Seq<char>, Transfer, Install>, Seq<char>>(
            "unsupported ADB server command: "@ + join(args, " "@),
        ),
{
    reveal_strlit(" ");
    assert(" "@ =~= seq![' ']);
    assert(args.skip(0) =~= args);
}

/// A device on the bus tells of a file by its name, size, mode and time, and reboots
/// into the three modes that it has besides its system.
pub proof fn files_are_told_and_modes_are_known(
    word: Seq<char>,
    path: Seq<char>,
    mode: Seq<char>,
    device: DeviceFacts,
)
    requires
        word == "stat"@ || word == "stat2"@,
        mode.len() > 0,
        mode != "bootloader"@,
        mode != "recovery"@,
        mode != "sideload"@,
    ensures
        usb_planned(seq![word, path], device) == Ok::<UsbPlan<Seq<char>, Transfer>, Seq<char>>(
            UsbPlan::Stream("SHELL\tstat -c '%n %s %a %Y' -- "@ + shell_word(path)),
        ),
        usb_planned(seq!["reboot"@, mode], device) == Err::<
            UsbPlan<Seq<char>, Transfer>,
            Seq<char>,
        >("unsupported reboot mode"@),
{
    reveal_strlit("forward");
    reveal_strlit("get-state");
    reveal_strlit("get-serialno");
    reveal_strlit("get-devpath");
    reveal_strlit("root");
    reveal_strlit("remount");
    reveal_strlit("tcpip");
    reveal_strlit("logcat");
    reveal_strlit("stat");
    reveal_strlit("stat2");
    reveal_strlit("shell");
    reveal_strlit("exec-out");
    reveal_strlit("pull-stream");
    reveal_strlit("pull");
    reveal_strlit("install");
    reveal_strlit("uninstall");
    reveal_strlit("reboot");
    assert("forward"@.len() == 7);
    assert("get-state"@.len() == 9);
    assert("get-serialno"@.len() == 12);
    assert("get-devpath"@.len() == 11);
    assert("root"@.len() == 4);
    assert("remount"@.len() == 7);
    assert("tcpip"@.len() == 5);
    assert("logcat"@.len() == 6);
    assert("stat"@.len() == 4);
    assert("stat2"@.len() == 5);
    assert("shell"@.len() == 5);
    assert("exec-out"@.len() == 8);
    assert("pull-stream"@.len() == 11);
    assert("pull"@.len() == 4);
    assert("install"@.len() == 7);
    assert("uninstall"@.len() == 9);
    assert("reboot"@.len() == 6);
    assert("forward"@[0] == 'f');
    assert("remount"@[0] == 'r');
    assert("install"@[0] == 'i');
    assert("get-state"@[0] == 'g');
    assert("uninstall"@[0] == 'u');
    assert("get-devpath"@[0] == 'g');
    assert("pull-stream"@[0] == 'p');
    assert("root"@[0] == 'r');
    assert("stat"@[0] == 's');
    assert("pull"@[0] == 'p');
    assert("tcpip"@[0] == 't' && "tcpip"@[1] == 'c');
    assert("stat2"@[0] == 's' && "stat2"@[1] == 't');
    assert("shell"@[0] == 's' && "shell"@[1] == 'h');
    assert("logcat"@[0] == 'l');
    assert("reboot"@[0] == 'r');
    assert(seq![word, path][0] == word);
    assert(seq!["reboot"@, mode][0] == "reboot"@);
}

/// A port that a device on the bus is to listen at is told to it and to the user, and
/// zero is refused.
pub proof fn ports_to_listen_at(port: u16)
    ensures
        port > 0 ==> usb_tcpip(decimal(port as nat)) == Ok::<
            UsbPlan<Seq<char>, Transfer>,
            Seq<char>,
        >(
            UsbPlan::RequestAndPrint(
                "TCPIP\\t"@ + decimal(port as nat),
                "restarting in TCP mode port: "@ + decimal(port as nat),
            ),
        ),
        port == 0 ==> usb_tcpip(decimal(port as nat)) == Err::<
            UsbPlan<Seq<char>, Transfer>,
            Seq<char>,
        >("tcpip port must be between 1 and 65535"@),
{
    decimals_are_read_back(port as nat, 65535);
}

/// A server lists no rules: a command that asks for them is refused, and so is every
/// request that cannot be understood, with the reason.
pub proof fn servers_list_no_rules(args: Seq<Seq<char>>, serial: Option<Seq<char>>)
    ensures
        args == seq!["forward"@, "--list"@] ==> server_planned(args, serial) == Err::<
            ServerPlan<Seq<char>, Transfer, Install>,
            Seq<char>,
        >("forward --list is not yet available through ADB server mode"@),
        args == seq!["reverse"@, "--list"@] ==> server_planned(args, serial) == Err::<
            ServerPlan<Seq<char>, Transfer, Install>,
            Seq<char>,
        >("reverse --list is not yet available through ADB server mode"@),
{
    reveal_strlit("forward");
    reveal_strlit("get-state");
    reveal_strlit("get-serialno");
    reveal_strlit("features");
    reveal_strlit("shell");
    reveal_strlit("exec-out");
    reveal_strlit("pull-stream");
    reveal_strlit("pull");
    reveal_strlit("push");
    reveal_strlit("sync");
    reveal_strlit("install");
    reveal_strlit("uninstall");
    reveal_strlit("root");
    reveal_strlit("remount");
    reveal_strlit("reboot");
    reveal_strlit("reverse");
    assert("forward"@.len() == 7);
    assert("get-state"@.len() == 9);
    assert("get-serialno"@.len() == 12);
    assert("features"@.len() == 8);
    assert("shell"@.len() == 5);
    assert("exec-out"@.len() == 8);
    assert("pull-stream"@.len() == 11);
    assert("pull"@.len() == 4);
    assert("push"@.len() == 4);
    assert("sync"@.len() == 4);
    assert("install"@.len() == 7);
    assert("uninstall"@.len() == 9);
    assert("root"@.len() == 4);
    assert("remount"@.len() == 7);
    assert("reboot"@.len() == 6);
    assert("reverse"@.len() == 7);
    assert("forward"@[0] == 'f' && "forward"@[2] == 'r');
    assert("install"@[0] == 'i' && "install"@[2] == 's');
    assert("remount"@[0] == 'r' && "remount"@[2] == 'm');
    assert("reverse"@[0] == 'r' && "reverse"@[2] == 'v');
    assert("get-state"@[0] == 'g');
    assert("uninstall"@[0] == 'u');
    assert("features"@[0] == 'f');
    assert("exec-out"@[0] == 'e');
    assert("pull"@[0] == 'p' && "pull"@[2] == 'l');
    assert("push"@[0] == 'p' && "push"@[2] == 's');
    assert("sync"@[0] == 's' && "sync"@[2] == 'n');
    assert("root"@[0] == 'r' && "root"@[2] == 'o');
    reveal_strlit("--remove");
    reveal_strlit("--list");
    reveal_strlit("--remove-all");
    assert("--remove"@.len() == 8);
    assert("--list"@.len() == 6);
    assert("--remove-all"@.len() == 12);
}

/// A transfer or a package that cannot be understood is refused with the reason, by each
/// way to a device.
pub proof fn reasons_are_passed_on(
    args: Seq<Seq<char>>,
    device: DeviceFacts,
    address: Seq<char>,
    serial: Option<Seq<char>>,
)
    requires
        args.len() > 0,
    ensures
        ({
            let reason = if args[0] == "install"@ {
                match install_asked(args) {
                    Ok(_) => None,
                    Err(error) => Some(error),
                }
            } else if args[0] == "uninstall"@ {
                match uninstall_asked(args) {
                    Ok(_) => None,
                    Err(error) => Some(error),
                }
            } else if args[0] == "pull"@ || args[0] == "push"@ {
                match transfer_asked(args, args[0]) {
                    Ok(_) => None,
                    Err(error) => Some(error),
                }
            } else {
                None
            };
            reason matches Some(error) ==> {
                &&& usb_planned(args, device) == Err::<UsbPlan<Seq<char>, Transfer>, Seq<char>>(
                    error,
                )
                &&& wireless_planned(args, address) == Err::<
                    WirelessPlan<Seq<char>, Transfer, Install, Uninstall>,
                    Seq<char>,
                >(error)
                &&& server_planned(args, serial) == Err::<
                    ServerPlan<Seq<char>, Transfer, Install>,
                    Seq<char>,
                >(error)
            }
        }),
{
    reveal_strlit("forward");
    reveal_strlit("get-state");
    reveal_strlit("get-serialno");
    reveal_strlit("get-devpath");
    reveal_strlit("root");
    reveal_strlit("remount");
    reveal_strlit("tcpip");
    reveal_strlit("logcat");
    reveal_strlit("stat");
    reveal_strlit("stat2");
    reveal_strlit("features");
    reveal_strlit("shell");
    reveal_strlit("exec-out");
    reveal_strlit("pull-stream");
    reveal_strlit("pull");
    reveal_strlit("push");
    reveal_strlit("install");
    reveal_strlit("uninstall");
    reveal_strlit("sync");
    reveal_strlit("reboot");
    assert("forward"@.len() == 7);
    assert("get-state"@.len() == 9);
    assert("get-serialno"@.len() == 12);
    assert("get-devpath"@.len() == 11);
    assert("root"@.len() == 4);
    assert("remount"@.len() == 7);
    assert("tcpip"@.len() == 5);
    assert("logcat"@.len() == 6);
    assert("stat"@.len() == 4);
    assert("stat2"@.len() == 5);
    assert("features"@.len() == 8);
    assert("shell"@.len() == 5);
    assert("exec-out"@.len() == 8);
    assert("pull-stream"@.len() == 11);
    assert("pull"@.len() == 4);
    assert("push"@.len() == 4);
    assert("install"@.len() == 7);
    assert("uninstall"@.len() == 9);
    assert("sync"@.len() == 4);
    assert("reboot"@.len() == 6);
    assert("forward"@[0] == 'f');
    assert("remount"@[0] == 'r');
    assert("install"@[0] == 'i');
    assert("get-state"@[0] == 'g');
    assert("uninstall"@[0] == 'u');
    assert("get-devpath"@[0] == 'g');
    assert("pull-stream"@[0] == 'p');
    assert("root"@[0] == 'r' && "root"@[1] == 'o' && "root"@[2] == 'o');
    assert("stat"@[0] == 's' && "stat"@[1] == 't' && "stat"@[2] == 'a');
    assert("pull"@[0] == 'p' && "pull"@[1] == 'u' && "pull"@[2] == 'l');
    assert("push"@[0] == 'p' && "push"@[1] == 'u' && "push"@[2] == 's');
    assert("sync"@[0] == 's' && "sync"@[1] == 'y' && "sync"@[2] == 'n');
    assert("tcpip"@[0] == 't' && "tcpip"@[1] == 'c');
    assert("stat2"@[0] == 's' && "stat2"@[1] == 't');
    assert("shell"@[0] == 's' && "shell"@[1] == 'h');
    assert("logcat"@[0] == 'l');
    assert("reboot"@[0] == 'r');
    assert("features"@[0] == 'f');
    assert("exec-out"@[0] == 'e');
}

} // verus!
