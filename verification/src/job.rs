//! The work that a request of a daemon takes: calls on the device, one after the
//! other, and an answer.

use crate::bytes::push_bytes;
use crate::daemon::{DirectRequest, WirelessRequest, direct_view, wireless_view};
use crate::forward::pair_texts;
use crate::frames::{answers_are_lines, STATUS_OK};
use crate::text::{
    append, chars_of, copy_text, decode, decode_lossy, empty_text, lines, lines_of, lossy, plus,
    same_text, string_of, texts, trim, trimmed, utf8_complaint,
};
use vstd::prelude::*;
use vstd::utf8::*;

verus! {

/// A call on the device.
#[derive(Debug)]
pub enum DeviceCall<T> {
    /// Run a shell command and collect its output.
    Shell(T),
    /// Upload a file.
    Push {
        /// The path of the file.
        source: T,
        /// Its path on the device.
        destination: T,
    },
    /// Add a reverse route.
    Reverse {
        /// The endpoint on the device.
        remote: T,
        /// The endpoint on the host.
        local: T,
    },
    /// Remove a reverse route.
    ReverseRemove(T),
    /// List the reverse routes.
    ReverseRoutes,
    /// Remove every reverse route.
    ReverseRemoveAll,
    /// Listen on a host endpoint and forward its connections.
    Forward {
        /// The endpoint on the host.
        local: T,
        /// The endpoint on the device.
        remote: T,
    },
    /// List the forwarding rules.
    ForwardRoutes,
    /// Remove a forwarding rule.
    ForwardRemove(T),
    /// Remove every forwarding rule.
    ForwardRemoveAll,
    /// Restart the daemon of the device with root privileges.
    Root,
    /// Remount the partitions of the device writable.
    Remount,
    /// Make the device listen on a TCP port.
    TcpIp(u16),
}

/// Output that is streamed to the connection.
#[derive(Debug)]
pub enum StreamCall<T> {
    /// The output of a shell command.
    Shell(T),
    /// The raw output of a command.
    Exec(T),
    /// The contents of a file.
    Pull(T),
}

/// What a daemon does next for a request.
#[derive(Debug)]
pub enum Work<T, B> {
    /// Make a call, and hand its reply back.
    Call(DeviceCall<T>),
    /// Stream output; the request is then done.
    Stream(StreamCall<T>),
    /// Upload what the connection carries; the request is then done.
    Receive(T),
    /// Answer with these bytes; the request is done.
    Answer(B),
    /// Answer with an error; the request is done.
    Fail(T),
}

/// The reply to a call.
#[derive(Debug)]
pub enum Reply<T, B, R> {
    /// The call succeeded.
    Done,
    /// The command succeeded with this output.
    Output(B),
    /// The routes or rules.
    Routes(R),
    /// Whether the rule was there.
    Removed(bool),
    /// The call failed, for this reason.
    Failed(T),
}

/// How far the work on a request has come.
#[derive(Debug)]
pub enum Job<T, B> {
    /// A call is made whose success is the answer.
    Plain,
    /// Routes or rules are listed.
    Listing,
    /// A rule is removed.
    Removing,
    /// A package file is uploaded.
    Uploading {
        /// Where it is put on the device.
        remote: T,
        /// The command that installs it.
        command: T,
    },
    /// The package is installed.
    Installing {
        /// Where the file is on the device.
        remote: T,
    },
    /// The file is removed after a failure.
    CleaningFailure(T),
    /// The file is removed after the installation, which put this out.
    Cleaning(B),
    /// A package is removed.
    Uninstalling,
    /// The properties of the device are read; so many are left, and these were
    /// read.
    Describing {
        /// How many properties are left.
        left: u8,
        /// The properties so far, each on a line.
        output: B,
    },
    /// The request is done.
    Over,
}

/// What a call says.
pub open spec fn call_view(call: DeviceCall<String>) -> DeviceCall<Seq<char>> {
    match call {
        DeviceCall::Shell(command) => DeviceCall::Shell(command@),
        DeviceCall::Push { source, destination } => DeviceCall::Push {
            source: source@,
            destination: destination@,
        },
        DeviceCall::Reverse { remote, local } => DeviceCall::Reverse {
            remote: remote@,
            local: local@,
        },
        DeviceCall::ReverseRemove(remote) => DeviceCall::ReverseRemove(remote@),
        DeviceCall::ReverseRoutes => DeviceCall::ReverseRoutes,
        DeviceCall::ReverseRemoveAll => DeviceCall::ReverseRemoveAll,
        DeviceCall::Forward { local, remote } => DeviceCall::Forward {
            local: local@,
            remote: remote@,
        },
        DeviceCall::ForwardRoutes => DeviceCall::ForwardRoutes,
        DeviceCall::ForwardRemove(local) => DeviceCall::ForwardRemove(local@),
        DeviceCall::ForwardRemoveAll => DeviceCall::ForwardRemoveAll,
        DeviceCall::Root => DeviceCall::Root,
        DeviceCall::Remount => DeviceCall::Remount,
        DeviceCall::TcpIp(port) => DeviceCall::TcpIp(port),
    }
}

/// What the next work says.
pub open spec fn work_view(work: Work<String, Vec<u8>>) -> Work<Seq<char>, Seq<u8>> {
    match work {
        Work::Call(call) => Work::Call(call_view(call)),
        Work::Stream(StreamCall::Shell(command)) => Work::Stream(StreamCall::Shell(command@)),
        Work::Stream(StreamCall::Exec(command)) => Work::Stream(StreamCall::Exec(command@)),
        Work::Stream(StreamCall::Pull(path)) => Work::Stream(StreamCall::Pull(path@)),
        Work::Receive(destination) => Work::Receive(destination@),
        Work::Answer(bytes) => Work::Answer(bytes@),
        Work::Fail(error) => Work::Fail(error@),
    }
}

/// What a reply says.
pub open spec fn reply_view(reply: Reply<String, Vec<u8>, Vec<(String, String)>>) -> Reply<
    Seq<char>,
    Seq<u8>,
    Seq<(Seq<char>, Seq<char>)>,
> {
    match reply {
        Reply::Done => Reply::Done,
        Reply::Output(bytes) => Reply::Output(bytes@),
        Reply::Routes(list) => Reply::Routes(pair_texts(list@)),
        Reply::Removed(there) => Reply::Removed(there),
        Reply::Failed(error) => Reply::Failed(error@),
    }
}

/// What a job says.
pub open spec fn job_view(job: Job<String, Vec<u8>>) -> Job<Seq<char>, Seq<u8>> {
    match job {
        Job::Plain => Job::Plain,
        Job::Listing => Job::Listing,
        Job::Removing => Job::Removing,
        Job::Uploading { remote, command } => Job::Uploading { remote: remote@, command: command@ },
        Job::Installing { remote } => Job::Installing { remote: remote@ },
        Job::CleaningFailure(error) => Job::CleaningFailure(error@),
        Job::Cleaning(output) => Job::Cleaning(output@),
        Job::Uninstalling => Job::Uninstalling,
        Job::Describing { left, output } => Job::Describing { left, output: output@ },
        Job::Over => Job::Over,
    }
}

/// A successful answer with some output.
pub open spec fn success(output: Seq<u8>) -> Work<Seq<char>, Seq<u8>> {
    Work::Answer(STATUS_OK@ + output)
}

/// The option that names a user, in front of what follows it.
pub open spec fn user_flag(user: Seq<char>) -> Seq<char> {
    if user.len() == 0 {
        seq![]
    } else {
        " --user "@ + user
    }
}

/// Where a package file is put on the device, from a stamp that no other
/// installation has.
pub open spec fn package_path(stamp: Seq<char>) -> Seq<char> {
    "/data/local/tmp/mab-install-"@ + stamp + ".apk"@
}

/// The command that installs a package file.
pub open spec fn install_command(flags: Seq<char>, user: Seq<char>, remote: Seq<char>) -> Seq<
    char,
> {
    "pm install "@ + flags + user_flag(user) + " "@ + remote
}

/// The command that removes a package.
pub open spec fn uninstall_command(keep: Seq<char>, user: Seq<char>, package: Seq<char>) -> Seq<
    char,
> {
    "pm uninstall "@ + keep + user_flag(user) + " "@ + package
}

/// Whether the package manager reports success: some line says so.
pub open spec fn reports_success(output: Seq<u8>) -> bool {
    exists|i: int|
        0 <= i < lines(lossy(output)).len() && trim(#[trigger] lines(lossy(output))[i])
            == "Success"@
}

/// The end of an installation or removal, from its output.
pub open spec fn verdict(output: Seq<u8>) -> Work<Seq<char>, Seq<u8>> {
    if reports_success(output) {
        success(output)
    } else {
        Work::Fail(lossy(output))
    }
}

/// The lines that list routes or rules.
pub open spec fn route_lines(list: Seq<(Seq<char>, Seq<char>)>) -> Seq<char>
    decreases list.len(),
{
    if list.len() == 0 {
        seq![]
    } else {
        route_lines(list.drop_last()) + list.last().0 + " "@ + list.last().1 + "\n"@
    }
}

/// The command that reads a property of the device: the last is the one with
/// none left behind it.
pub open spec fn property_command(left: u8) -> Seq<char> {
    "getprop "@ + if left == 3 {
        "ro.serialno"@
    } else if left == 2 {
        "ro.product.model"@
    } else {
        "ro.build.product"@
    }
}

/// A call whose success is the answer.
pub open spec fn plain(call: DeviceCall<Seq<char>>) -> (
    Job<Seq<char>, Seq<u8>>,
    Work<Seq<char>, Seq<u8>>,
) {
    (Job::Plain, Work::Call(call))
}

/// How the work on a request of the USB daemon begins.
pub open spec fn direct_begin(request: DirectRequest<Seq<char>>, stamp: Seq<char>) -> (
    Job<Seq<char>, Seq<u8>>,
    Work<Seq<char>, Seq<u8>>,
) {
    match request {
        DirectRequest::Shell(command) => (Job::Over, Work::Stream(StreamCall::Shell(command))),
        DirectRequest::Exec(command) => (Job::Over, Work::Stream(StreamCall::Exec(command))),
        DirectRequest::Pull(path) => (Job::Over, Work::Stream(StreamCall::Pull(path))),
        DirectRequest::Install { source, flags, user } => {
            let remote = package_path(stamp);
            (
                Job::Uploading { remote, command: install_command(flags, user, remote) },
                Work::Call(DeviceCall::Push { source, destination: remote }),
            )
        },
        DirectRequest::Uninstall { keep, user, package } => (
            Job::Uninstalling,
            Work::Call(DeviceCall::Shell(uninstall_command(keep, user, package))),
        ),
        DirectRequest::Ping => (Job::Over, success(seq![])),
        DirectRequest::Push { source, destination } => plain(
            DeviceCall::Push { source, destination },
        ),
        DirectRequest::PushStream(destination) => (Job::Over, Work::Receive(destination)),
        DirectRequest::Reverse { remote, local } => plain(DeviceCall::Reverse { remote, local }),
        DirectRequest::ReverseRemove(remote) => plain(DeviceCall::ReverseRemove(remote)),
        DirectRequest::ReverseList => (Job::Listing, Work::Call(DeviceCall::ReverseRoutes)),
        DirectRequest::ReverseRemoveAll => plain(DeviceCall::ReverseRemoveAll),
        DirectRequest::Forward { local, remote } => plain(DeviceCall::Forward { local, remote }),
        DirectRequest::ForwardList => (Job::Listing, Work::Call(DeviceCall::ForwardRoutes)),
        DirectRequest::ForwardRemove(local) => (
            Job::Removing,
            Work::Call(DeviceCall::ForwardRemove(local)),
        ),
        DirectRequest::ForwardRemoveAll => plain(DeviceCall::ForwardRemoveAll),
        DirectRequest::Root => plain(DeviceCall::Root),
        DirectRequest::Remount => plain(DeviceCall::Remount),
        DirectRequest::TcpIp(port) => plain(DeviceCall::TcpIp(port)),
        DirectRequest::DeviceInfo => (
            Job::Describing { left: 3, output: seq![] },
            Work::Call(DeviceCall::Shell(property_command(3))),
        ),
    }
}

/// How the work on a request of the wireless daemon begins.
pub open spec fn wireless_begin(request: WirelessRequest<Seq<char>>) -> (
    Job<Seq<char>, Seq<u8>>,
    Work<Seq<char>, Seq<u8>>,
) {
    match request {
        WirelessRequest::Ping => (Job::Over, success(seq![])),
        WirelessRequest::Forward { local, remote } => plain(DeviceCall::Forward { local, remote }),
        WirelessRequest::List => (Job::Listing, Work::Call(DeviceCall::ForwardRoutes)),
        WirelessRequest::Remove(local) => (
            Job::Removing,
            Work::Call(DeviceCall::ForwardRemove(local)),
        ),
        WirelessRequest::RemoveAll => plain(DeviceCall::ForwardRemoveAll),
    }
}

/// Whether a reply is one that a job can get.
pub open spec fn reply_fits<T, B, U, C, R>(job: Job<T, B>, reply: Reply<U, C, R>) -> bool {
    reply is Failed && !(job is Over) || match job {
        Job::Plain => reply is Done,
        Job::Listing => reply is Routes,
        Job::Removing => reply is Removed,
        Job::Uploading { .. } => reply is Done,
        Job::Installing { .. } | Job::CleaningFailure(_) | Job::Cleaning(_) | Job::Uninstalling
        | Job::Describing { .. } => reply is Output,
        Job::Over => false,
    }
}

/// The command that removes a package file from the device.
pub open spec fn clean_command(remote: Seq<char>) -> Seq<char> {
    "rm -f "@ + remote
}

/// How the work on a request goes on after a reply.
pub open spec fn job_next(
    job: Job<Seq<char>, Seq<u8>>,
    reply: Reply<Seq<char>, Seq<u8>, Seq<(Seq<char>, Seq<char>)>>,
) -> (Job<Seq<char>, Seq<u8>>, Work<Seq<char>, Seq<u8>>) {
    match (job, reply) {
        (Job::Uploading { remote, .. }, Reply::Failed(error)) => (
            Job::CleaningFailure(error),
            Work::Call(DeviceCall::Shell(clean_command(remote))),
        ),
        (Job::Uploading { remote, command }, _) => (
            Job::Installing { remote },
            Work::Call(DeviceCall::Shell(command)),
        ),
        (Job::Installing { remote }, Reply::Failed(error)) => (
            Job::CleaningFailure(error),
            Work::Call(DeviceCall::Shell(clean_command(remote))),
        ),
        (Job::Installing { remote }, Reply::Output(output)) => (
            Job::Cleaning(output),
            Work::Call(DeviceCall::Shell(clean_command(remote))),
        ),
        (Job::CleaningFailure(error), _) => (Job::Over, Work::Fail(error)),
        (Job::Cleaning(output), _) => (Job::Over, verdict(output)),
        (_, Reply::Failed(error)) => (Job::Over, Work::Fail(error)),
        (Job::Listing, Reply::Routes(list)) => (
            Job::Over,
            success(encode_utf8(route_lines(list))),
        ),
        (Job::Removing, Reply::Removed(there)) => (
            Job::Over,
            if there {
                success(seq![])
            } else {
                Work::Fail("forward rule not found"@)
            },
        ),
        (Job::Uninstalling, Reply::Output(output)) => (Job::Over, verdict(output)),
        (Job::Describing { left, output }, Reply::Output(value)) => if !valid_utf8(value) {
            (Job::Over, Work::Fail(utf8_complaint(value)))
        } else {
            let more = output + encode_utf8(trim(decode_utf8(value)) + "\n"@);
            if left <= 1 {
                (Job::Over, success(more))
            } else {
                (
                    Job::Describing { left: (left - 1) as u8, output: more },
                    Work::Call(DeviceCall::Shell(property_command((left - 1) as u8))),
                )
            }
        },
        _ => (Job::Over, success(seq![])),
    }
}

/// Builds a successful answer.
fn succeed(output: &[u8]) -> (work: Work<String, Vec<u8>>)
    ensures
        work_view(work) == success(output@),
{
    let mut bytes: Vec<u8> = Vec::new();
    push_bytes(&mut bytes, &STATUS_OK);
    push_bytes(&mut bytes, output);
    assert(bytes@ =~= STATUS_OK@ + output@);
    Work::Answer(bytes)
}

/// Builds a successful answer without output.
fn succeed_plainly() -> (work: Work<String, Vec<u8>>)
    ensures
        work_view(work) == success(seq![]),
{
    let nothing: Vec<u8> = Vec::new();
    assert(nothing@ =~= seq![]);
    succeed(&nothing)
}

/// Builds the option that names a user.
fn write_user_flag(user: &str) -> (flag: String)
    ensures
        flag@ == user_flag(user@),
{
    if empty_text(user) {
        let nothing = String::new();
        assert(nothing@ =~= seq![]);
        nothing
    } else {
        plus(copy_text(" --user "), user)
    }
}

/// Whether the package manager reports success.
#[verifier::loop_isolation(false)]
pub fn succeeded(output: &[u8]) -> (result: bool)
    ensures
        result == reports_success(output@),
{
    let text: String = decode_lossy(output);
    let chars: Vec<char> = chars_of(&text);
    let list: Vec<String> = lines_of(chars.as_slice());
    let ghost all = lines(lossy(output@));
    assert(texts(list@) == all);
    assert(all.len() == list@.len());
    let mut i: usize = 0;
    while i < list.len()
        invariant
            i <= list@.len(),
            forall|j: int| 0 <= j < i ==> trim(#[trigger] all[j]) != "Success"@,
        decreases list@.len() - i,
    {
        let line: Vec<char> = chars_of(&list[i]);
        let word: String = string_of(trimmed(line.as_slice()));
        assert(texts(list@)[i as int] == list@[i as int]@);
        assert(trim(all[i as int]) == word@);
        if same_text(&word, "Success") {
            return true;
        }
        i = i + 1;
    }
    false
}

/// Ends an installation or removal.
fn judge(output: &[u8]) -> (work: Work<String, Vec<u8>>)
    ensures
        work_view(work) == verdict(output@),
{
    if succeeded(output) {
        succeed(output)
    } else {
        Work::Fail(decode_lossy(output))
    }
}

/// Writes the lines that list routes or rules.
pub fn list_routes(list: &[(String, String)]) -> (text: String)
    ensures
        text@ == route_lines(pair_texts(list@)),
{
    let ghost all = pair_texts(list@);
    let mut text = String::new();
    let mut i: usize = 0;
    assert(text@ =~= route_lines(all.take(0)));
    while i < list.len()
        invariant
            i <= list@.len(),
            all == pair_texts(list@),
            text@ == route_lines(all.take(i as int)),
        decreases list@.len() - i,
    {
        assert(all.take(i + 1).drop_last() =~= all.take(i as int));
        assert(all.take(i + 1).last() == (list@[i as int].0@, list@[i as int].1@));
        append(&mut text, &list[i].0);
        append(&mut text, " ");
        append(&mut text, &list[i].1);
        append(&mut text, "\n");
        i = i + 1;
    }
    assert(all.take(i as int) =~= all);
    text
}

/// Builds the call that reads a property of the device.
fn describe(left: u8) -> (work: Work<String, Vec<u8>>)
    ensures
        work_view(work) == Work::<Seq<char>, Seq<u8>>::Call(
            DeviceCall::Shell(property_command(left)),
        ),
{
    let name: &str = if left == 3 {
        "ro.serialno"
    } else if left == 2 {
        "ro.product.model"
    } else {
        "ro.build.product"
    };
    Work::Call(DeviceCall::Shell(plus(copy_text("getprop "), name)))
}

/// Builds the call that removes a package file from the device.
fn clean(remote: &str) -> (work: Work<String, Vec<u8>>)
    ensures
        work_view(work) == Work::<Seq<char>, Seq<u8>>::Call(
            DeviceCall::Shell(clean_command(remote@)),
        ),
{
    Work::Call(DeviceCall::Shell(plus(copy_text("rm -f "), remote)))
}

/// Begins the work on a request of the USB daemon. The stamp tells an
/// installation from all others.
pub fn begin_direct(request: DirectRequest<String>, stamp: &str) -> (begun: (
    Job<String, Vec<u8>>,
    Work<String, Vec<u8>>,
))
    ensures
        (job_view(begun.0), work_view(begun.1)) == direct_begin(direct_view(request), stamp@),
{
    match request {
        DirectRequest::Shell(command) => (Job::Over, Work::Stream(StreamCall::Shell(command))),
        DirectRequest::Exec(command) => (Job::Over, Work::Stream(StreamCall::Exec(command))),
        DirectRequest::Pull(path) => (Job::Over, Work::Stream(StreamCall::Pull(path))),
        DirectRequest::Install { source, flags, user } => {
            let remote: String = plus(
                plus(copy_text("/data/local/tmp/mab-install-"), stamp),
                ".apk",
            );
            let command: String = plus(
                plus(
                    plus(plus(copy_text("pm install "), &flags), &write_user_flag(&user)),
                    " ",
                ),
                &remote,
            );
            let destination: String = copy_text(&remote);
            (
                Job::Uploading { remote, command },
                Work::Call(DeviceCall::Push { source, destination }),
            )
        },
        DirectRequest::Uninstall { keep, user, package } => {
            let command: String = plus(
                plus(
                    plus(plus(copy_text("pm uninstall "), &keep), &write_user_flag(&user)),
                    " ",
                ),
                &package,
            );
            (Job::Uninstalling, Work::Call(DeviceCall::Shell(command)))
        },
        DirectRequest::Ping => (Job::Over, succeed_plainly()),
        DirectRequest::Push { source, destination } => (
            Job::Plain,
            Work::Call(DeviceCall::Push { source, destination }),
        ),
        DirectRequest::PushStream(destination) => (Job::Over, Work::Receive(destination)),
        DirectRequest::Reverse { remote, local } => (
            Job::Plain,
            Work::Call(DeviceCall::Reverse { remote, local }),
        ),
        DirectRequest::ReverseRemove(remote) => (
            Job::Plain,
            Work::Call(DeviceCall::ReverseRemove(remote)),
        ),
        DirectRequest::ReverseList => (Job::Listing, Work::Call(DeviceCall::ReverseRoutes)),
        DirectRequest::ReverseRemoveAll => (Job::Plain, Work::Call(DeviceCall::ReverseRemoveAll)),
        DirectRequest::Forward { local, remote } => (
            Job::Plain,
            Work::Call(DeviceCall::Forward { local, remote }),
        ),
        DirectRequest::ForwardList => (Job::Listing, Work::Call(DeviceCall::ForwardRoutes)),
        DirectRequest::ForwardRemove(local) => (
            Job::Removing,
            Work::Call(DeviceCall::ForwardRemove(local)),
        ),
        DirectRequest::ForwardRemoveAll => (Job::Plain, Work::Call(DeviceCall::ForwardRemoveAll)),
        DirectRequest::Root => (Job::Plain, Work::Call(DeviceCall::Root)),
        DirectRequest::Remount => (Job::Plain, Work::Call(DeviceCall::Remount)),
        DirectRequest::TcpIp(port) => (Job::Plain, Work::Call(DeviceCall::TcpIp(port))),
        DirectRequest::DeviceInfo => {
            let output: Vec<u8> = Vec::new();
            assert(output@ =~= seq![]);
            (Job::Describing { left: 3, output }, describe(3))
        },
    }
}

/// Begins the work on a request of the wireless daemon.
pub fn begin_wireless(request: WirelessRequest<String>) -> (begun: (
    Job<String, Vec<u8>>,
    Work<String, Vec<u8>>,
))
    ensures
        (job_view(begun.0), work_view(begun.1)) == wireless_begin(wireless_view(request)),
{
    match request {
        WirelessRequest::Ping => (Job::Over, succeed_plainly()),
        WirelessRequest::Forward { local, remote } => (
            Job::Plain,
            Work::Call(DeviceCall::Forward { local, remote }),
        ),
        WirelessRequest::List => (Job::Listing, Work::Call(DeviceCall::ForwardRoutes)),
        WirelessRequest::Remove(local) => (
            Job::Removing,
            Work::Call(DeviceCall::ForwardRemove(local)),
        ),
        WirelessRequest::RemoveAll => (Job::Plain, Work::Call(DeviceCall::ForwardRemoveAll)),
    }
}

/// Goes on with the properties of the device.
fn described(left: u8, output: Vec<u8>, value: &[u8]) -> (next: (
    Job<String, Vec<u8>>,
    Work<String, Vec<u8>>,
))
    ensures
        (job_view(next.0), work_view(next.1)) == job_next(
            Job::Describing { left, output: output@ },
            Reply::Output(value@),
        ),
{
    match decode(value) {
        Err(complaint) => (Job::Over, Work::Fail(complaint)),
        Ok(text) => {
            let chars: Vec<char> = chars_of(&text);
            let line: String = plus(string_of(trimmed(chars.as_slice())), "\n");
            let mut more = output;
            push_bytes(&mut more, line.as_str().as_bytes());
            if left <= 1 {
                (Job::Over, succeed(&more))
            } else {
                (Job::Describing { left: left - 1, output: more }, describe(left - 1))
            }
        },
    }
}

/// Goes on with the work on a request after a reply.
pub fn on_reply(
    job: Job<String, Vec<u8>>,
    reply: Reply<String, Vec<u8>, Vec<(String, String)>>,
) -> (next: (Job<String, Vec<u8>>, Work<String, Vec<u8>>))
    requires
        reply_fits(job, reply),
    ensures
        (job_view(next.0), work_view(next.1)) == job_next(job_view(job), reply_view(reply)),
{
    match (job, reply) {
        (Job::Uploading { remote, .. }, Reply::Failed(error)) => (
            Job::CleaningFailure(error),
            clean(&remote),
        ),
        (Job::Uploading { remote, command }, _) => (
            Job::Installing { remote },
            Work::Call(DeviceCall::Shell(command)),
        ),
        (Job::Installing { remote }, Reply::Failed(error)) => (
            Job::CleaningFailure(error),
            clean(&remote),
        ),
        (Job::Installing { remote }, Reply::Output(output)) => (
            Job::Cleaning(output),
            clean(&remote),
        ),
        (Job::CleaningFailure(error), _) => (Job::Over, Work::Fail(error)),
        (Job::Cleaning(output), _) => (Job::Over, judge(&output)),
        (_, Reply::Failed(error)) => (Job::Over, Work::Fail(error)),
        (Job::Listing, Reply::Routes(list)) => {
            let text: String = list_routes(&list);
            (Job::Over, succeed(text.as_str().as_bytes()))
        },
        (Job::Removing, Reply::Removed(there)) => (
            Job::Over,
            if there {
                succeed_plainly()
            } else {
                Work::Fail(copy_text("forward rule not found"))
            },
        ),
        (Job::Uninstalling, Reply::Output(output)) => (Job::Over, judge(&output)),
        (Job::Describing { left, output }, Reply::Output(value)) => described(left, output, &value),
        _ => (Job::Over, succeed_plainly()),
    }
}

/// How much work is left for a job.
pub open spec fn job_left(job: Job<Seq<char>, Seq<u8>>) -> nat {
    match job {
        Job::Over => 0,
        Job::Describing { left, .. } => 1 + left as nat,
        Job::Uploading { .. } => 3,
        Job::Installing { .. } => 2,
        _ => 1,
    }
}

/// Every reply brings a request nearer to its end, and a request that is done
/// has its answer.
pub proof fn jobs_end(
    job: Job<Seq<char>, Seq<u8>>,
    reply: Reply<Seq<char>, Seq<u8>, Seq<(Seq<char>, Seq<char>)>>,
)
    requires
        reply_fits(job, reply),
    ensures
        job_left(job_next(job, reply).0) < job_left(job),
        job_next(job, reply).0 is Over ==> !(job_next(job, reply).1 is Call),
{
}

/// However an installation goes, once its file may be on the device the file is
/// removed before the request is done.
pub proof fn package_files_are_removed(
    job: Job<Seq<char>, Seq<u8>>,
    reply: Reply<Seq<char>, Seq<u8>, Seq<(Seq<char>, Seq<char>)>>,
    remote: Seq<char>,
)
    requires
        reply_fits(job, reply),
        job matches Job::Uploading { remote: place, .. } && place == remote || job == (
        Job::<Seq<char>, Seq<u8>>::Installing { remote }),
    ensures
        ({
            let (next, work) = job_next(job, reply);
            ||| next == (Job::<Seq<char>, Seq<u8>>::Installing { remote })
            ||| (next is Cleaning || next is CleaningFailure) && work == Work::<
                Seq<char>,
                Seq<u8>,
            >::Call(DeviceCall::Shell(clean_command(remote)))
        }),
{
}

/// What each request asks of the device. The ends of a rule keep their sides, and so do
/// the source and the destination of an upload.
pub proof fn requests_become_calls(
    first: Seq<char>,
    second: Seq<char>,
    port: u16,
    stamp: Seq<char>,
)
    ensures
        direct_begin(DirectRequest::Forward { local: first, remote: second }, stamp).1
            == Work::<Seq<char>, Seq<u8>>::Call(
            DeviceCall::Forward { local: first, remote: second },
        ),
        direct_begin(DirectRequest::Reverse { remote: first, local: second }, stamp).1
            == Work::<Seq<char>, Seq<u8>>::Call(
            DeviceCall::Reverse { remote: first, local: second },
        ),
        direct_begin(DirectRequest::Push { source: first, destination: second }, stamp).1
            == Work::<Seq<char>, Seq<u8>>::Call(
            DeviceCall::Push { source: first, destination: second },
        ),
        wireless_begin(WirelessRequest::Forward { local: first, remote: second }).1 == Work::<
            Seq<char>,
            Seq<u8>,
        >::Call(DeviceCall::Forward { local: first, remote: second }),
        direct_begin(DirectRequest::Shell(first), stamp).1 == Work::<Seq<char>, Seq<u8>>::Stream(
            StreamCall::Shell(first),
        ),
        direct_begin(DirectRequest::Exec(first), stamp).1 == Work::<Seq<char>, Seq<u8>>::Stream(
            StreamCall::Exec(first),
        ),
        direct_begin(DirectRequest::Pull(first), stamp).1 == Work::<Seq<char>, Seq<u8>>::Stream(
            StreamCall::Pull(first),
        ),
        direct_begin(DirectRequest::PushStream(first), stamp).1 == Work::<
            Seq<char>,
            Seq<u8>,
        >::Receive(first),
        direct_begin(DirectRequest::ReverseRemove(first), stamp).1 == Work::<
            Seq<char>,
            Seq<u8>,
        >::Call(DeviceCall::ReverseRemove(first)),
        direct_begin(DirectRequest::ForwardRemove(first), stamp).1 == Work::<
            Seq<char>,
            Seq<u8>,
        >::Call(DeviceCall::ForwardRemove(first)),
        wireless_begin(WirelessRequest::Remove(first)).1 == Work::<Seq<char>, Seq<u8>>::Call(
            DeviceCall::ForwardRemove(first),
        ),
        direct_begin(DirectRequest::TcpIp(port), stamp).1 == Work::<Seq<char>, Seq<u8>>::Call(
            DeviceCall::TcpIp(port),
        ),
        direct_begin(DirectRequest::Root, stamp).1 == Work::<Seq<char>, Seq<u8>>::Call(
            DeviceCall::Root,
        ),
        direct_begin(DirectRequest::Remount, stamp).1 == Work::<Seq<char>, Seq<u8>>::Call(
            DeviceCall::Remount,
        ),
        direct_begin(DirectRequest::ReverseList, stamp).1 == Work::<Seq<char>, Seq<u8>>::Call(
            DeviceCall::ReverseRoutes,
        ),
        direct_begin(DirectRequest::ForwardList, stamp).1 == Work::<Seq<char>, Seq<u8>>::Call(
            DeviceCall::ForwardRoutes,
        ),
        direct_begin(DirectRequest::ReverseRemoveAll, stamp).1 == Work::<
            Seq<char>,
            Seq<u8>,
        >::Call(DeviceCall::ReverseRemoveAll),
        direct_begin(DirectRequest::ForwardRemoveAll, stamp).1 == Work::<
            Seq<char>,
            Seq<u8>,
        >::Call(DeviceCall::ForwardRemoveAll),
        wireless_begin(WirelessRequest::List).1 == Work::<Seq<char>, Seq<u8>>::Call(
            DeviceCall::ForwardRoutes,
        ),
        wireless_begin(WirelessRequest::RemoveAll).1 == Work::<Seq<char>, Seq<u8>>::Call(
            DeviceCall::ForwardRemoveAll,
        ),
{
}

/// A call that is done is answered with yes and nothing more; one that failed, with its
/// reason. So is a question whether the daemon is there.
pub proof fn calls_are_answered(
    first: Seq<char>,
    second: Seq<char>,
    error: Seq<char>,
    stamp: Seq<char>,
)
    ensures
        ({
            let yes = Work::<Seq<char>, Seq<u8>>::Answer(encode_utf8("OK\n"@));
            let added = direct_begin(
                DirectRequest::Forward { local: first, remote: second },
                stamp,
            ).0;
            let routed = direct_begin(
                DirectRequest::Reverse { remote: first, local: second },
                stamp,
            ).0;
            let sent = direct_begin(
                DirectRequest::Push { source: first, destination: second },
                stamp,
            ).0;
            let removed = direct_begin(DirectRequest::ForwardRemove(first), stamp).0;
            let unrouted = direct_begin(DirectRequest::ReverseRemove(first), stamp).0;
            &&& job_next(added, Reply::Done).1 == yes
            &&& job_next(routed, Reply::Done).1 == yes
            &&& job_next(sent, Reply::Done).1 == yes
            &&& job_next(unrouted, Reply::Done).1 == yes
            &&& job_next(removed, Reply::Removed(true)).1 == yes
            &&& job_next(removed, Reply::Removed(false)).1 == Work::<Seq<char>, Seq<u8>>::Fail(
                "forward rule not found"@,
            )
            &&& forall|job: Job<Seq<char>, Seq<u8>>|
                job == added || job == routed || job == sent || job == removed || job == unrouted
                    ==> (#[trigger] job_next(job, Reply::Failed(error))) == (
                    Job::<Seq<char>, Seq<u8>>::Over,
                    Work::<Seq<char>, Seq<u8>>::Fail(error),
                )
            &&& direct_begin(DirectRequest::Ping, stamp).1 == yes
            &&& wireless_begin(WirelessRequest::Ping).1 == yes
        }),
{
    answers_are_lines(seq![]);
    assert(STATUS_OK@ + Seq::<u8>::empty() =~= STATUS_OK@);
}

/// A package is installed in three steps: its file is sent to a place of its own, the
/// package manager is run on that place, and the place is cleared. Then the answer is what
/// the package manager said, and is yes only where a line of it says so.
pub proof fn packages_are_sent_installed_and_cleared(
    source: Seq<char>,
    flags: Seq<char>,
    user: Seq<char>,
    stamp: Seq<char>,
    output: Seq<u8>,
    cleared: Reply<Seq<char>, Seq<u8>, Seq<(Seq<char>, Seq<char>)>>,
)
    ensures
        ({
            let place = "/data/local/tmp/mab-install-"@ + stamp + ".apk"@;
            let begun = direct_begin(DirectRequest::Install { source, flags, user }, stamp);
            let sent = job_next(begun.0, Reply::Done);
            let installed = job_next(sent.0, Reply::Output(output));
            let ended = job_next(installed.0, cleared);
            let person = if user.len() == 0 {
                Seq::<char>::empty()
            } else {
                " --user "@ + user
            };
            let said = exists|i: int|
                0 <= i < lines(lossy(output)).len() && trim(#[trigger] lines(lossy(output))[i])
                    == "Success"@;
            &&& begun.1 == Work::<Seq<char>, Seq<u8>>::Call(
                DeviceCall::Push { source, destination: place },
            )
            &&& sent.1 == Work::<Seq<char>, Seq<u8>>::Call(
                DeviceCall::Shell("pm install "@ + flags + person + " "@ + place),
            )
            &&& installed.1 == Work::<Seq<char>, Seq<u8>>::Call(
                DeviceCall::Shell("rm -f "@ + place),
            )
            &&& ended.1 == if said {
                Work::<Seq<char>, Seq<u8>>::Answer(encode_utf8("OK\n"@) + output)
            } else {
                Work::Fail(lossy(output))
            }
        }),
{
    answers_are_lines(seq![]);
}

/// A package is removed by the package manager, and the answer is yes only where a line of
/// what that says is.
pub proof fn packages_are_removed_by_name(
    keep: Seq<char>,
    user: Seq<char>,
    package: Seq<char>,
    stamp: Seq<char>,
    output: Seq<u8>,
)
    ensures
        ({
            let begun = direct_begin(DirectRequest::Uninstall { keep, user, package }, stamp);
            let person = if user.len() == 0 {
                Seq::<char>::empty()
            } else {
                " --user "@ + user
            };
            let said = exists|i: int|
                0 <= i < lines(lossy(output)).len() && trim(#[trigger] lines(lossy(output))[i])
                    == "Success"@;
            &&& begun.1 == Work::<Seq<char>, Seq<u8>>::Call(
                DeviceCall::Shell("pm uninstall "@ + keep + person + " "@ + package),
            )
            &&& job_next(begun.0, Reply::Output(output)).1 == if said {
                Work::<Seq<char>, Seq<u8>>::Answer(encode_utf8("OK\n"@) + output)
            } else {
                Work::Fail(lossy(output))
            }
        }),
{
    answers_are_lines(seq![]);
}

/// Each route is listed on a line of its own, its ends in the order in which the device
/// gives them, and the answer holds all of them.
pub proof fn routes_are_listed_on_lines(
    list: Seq<(Seq<char>, Seq<char>)>,
    one: Seq<char>,
    other: Seq<char>,
)
    ensures
        route_lines(seq![]) == Seq::<char>::empty(),
        route_lines(list.push((one, other))) == route_lines(list) + one + " "@ + other + "\n"@,
        job_next(Job::Listing, Reply::Routes(list)).1 == Work::<Seq<char>, Seq<u8>>::Answer(
            encode_utf8("OK\n"@) + encode_utf8(route_lines(list)),
        ),
        direct_begin(DirectRequest::ForwardList, one).0 is Listing,
        direct_begin(DirectRequest::ReverseList, one).0 is Listing,
        wireless_begin(WirelessRequest::List).0 is Listing,
{
    answers_are_lines(seq![]);
    assert(list.push((one, other)).drop_last() =~= list);
}

/// A device is described by its serial number, its model and its product, in this order,
/// each on a line.
pub proof fn devices_are_described_by_three_properties(
    serial: Seq<char>,
    model: Seq<char>,
    product: Seq<char>,
    stamp: Seq<char>,
)
    ensures
        ({
            let one = direct_begin(DirectRequest::DeviceInfo, stamp);
            let two = job_next(one.0, Reply::Output(encode_utf8(serial)));
            let three = job_next(two.0, Reply::Output(encode_utf8(model)));
            let last = job_next(three.0, Reply::Output(encode_utf8(product)));
            &&& one.1 == Work::<Seq<char>, Seq<u8>>::Call(
                DeviceCall::Shell("getprop "@ + "ro.serialno"@),
            )
            &&& two.1 == Work::<Seq<char>, Seq<u8>>::Call(
                DeviceCall::Shell("getprop "@ + "ro.product.model"@),
            )
            &&& three.1 == Work::<Seq<char>, Seq<u8>>::Call(
                DeviceCall::Shell("getprop "@ + "ro.build.product"@),
            )
            &&& last.1 == Work::<Seq<char>, Seq<u8>>::Answer(
                encode_utf8("OK\n"@) + (encode_utf8(trim(serial) + "\n"@) + encode_utf8(
                    trim(model) + "\n"@,
                ) + encode_utf8(trim(product) + "\n"@)),
            )
        }),
{
    answers_are_lines(seq![]);
    encode_utf8_valid_utf8(serial);
    encode_utf8_valid_utf8(model);
    encode_utf8_valid_utf8(product);
    encode_utf8_decode_utf8(serial);
    encode_utf8_decode_utf8(model);
    encode_utf8_decode_utf8(product);
    let first = encode_utf8(trim(serial) + "\n"@);
    assert(Seq::<u8>::empty() + first =~= first);
}

} // verus!
