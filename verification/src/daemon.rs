//! The local daemons that keep a device open between commands.
//!
//! A daemon reads one request from each connection, makes the calls on the
//! device that the request needs, and answers.

use crate::requests::{all_digits, install_flag, only_digits, only_package_chars, package_chars};
use crate::text::{
    chars_of, complains, copy_text, decimal, decimals_are_read_back, decode, empty_text,
    lemma_split_fields, lemma_split_join, numbers_are_read_back, plus, read_unsigned, same_text,
    split, split_at_char, splitting_and_joining, string_of, texts, unsigned_complaint,
    unsigned_value, utf8_complaint, words, words_of,
};
use vstd::prelude::*;
use vstd::slice::slice_subrange;
use vstd::utf8::*;

verus! {

/// The size of the largest request of the USB daemon.
pub const MAX_USB_REQUEST: usize = 1048576;

/// The size of the largest request of the wireless daemon.
pub const MAX_WIRELESS_REQUEST: usize = 65536;

/// A request of the USB daemon.
#[derive(Debug)]
pub enum DirectRequest<T> {
    /// Run a shell command and stream its output.
    Shell(T),
    /// Run a command and stream its raw output.
    Exec(T),
    /// Stream a file of the device.
    Pull(T),
    /// Install a package file.
    Install {
        /// The path of the file.
        source: T,
        /// The flags for the package manager.
        flags: T,
        /// The user, or nothing.
        user: T,
    },
    /// Remove a package.
    Uninstall {
        /// The option that keeps its data, or nothing.
        keep: T,
        /// The user, or nothing.
        user: T,
        /// The name of the package.
        package: T,
    },
    /// Do nothing.
    Ping,
    /// Upload a file.
    Push {
        /// The path of the file.
        source: T,
        /// Its path on the device.
        destination: T,
    },
    /// Upload what the connection carries.
    PushStream(T),
    /// Add a reverse route.
    Reverse {
        /// The endpoint on the device.
        remote: T,
        /// The endpoint on the host.
        local: T,
    },
    /// Remove a reverse route.
    ReverseRemove(T),
    /// List the reverse routes.
    ReverseList,
    /// Remove every reverse route.
    ReverseRemoveAll,
    /// Add a forwarding rule.
    Forward {
        /// The endpoint on the host.
        local: T,
        /// The endpoint on the device.
        remote: T,
    },
    /// List the forwarding rules.
    ForwardList,
    /// Remove a forwarding rule.
    ForwardRemove(T),
    /// Remove every forwarding rule.
    ForwardRemoveAll,
    /// Restart the daemon of the device with root privileges.
    Root,
    /// Remount the partitions of the device writable.
    Remount,
    /// Make the device listen on a TCP port.
    TcpIp(u16),
    /// Read the serial number, model and product.
    DeviceInfo,
}

/// What a request of the USB daemon says.
pub open spec fn direct_view(request: DirectRequest<String>) -> DirectRequest<Seq<char>> {
    match request {
        DirectRequest::Shell(command) => DirectRequest::Shell(command@),
        DirectRequest::Exec(command) => DirectRequest::Exec(command@),
        DirectRequest::Pull(path) => DirectRequest::Pull(path@),
        DirectRequest::Install { source, flags, user } => DirectRequest::Install {
            source: source@,
            flags: flags@,
            user: user@,
        },
        DirectRequest::Uninstall { keep, user, package } => DirectRequest::Uninstall {
            keep: keep@,
            user: user@,
            package: package@,
        },
        DirectRequest::Ping => DirectRequest::Ping,
        DirectRequest::Push { source, destination } => DirectRequest::Push {
            source: source@,
            destination: destination@,
        },
        DirectRequest::PushStream(destination) => DirectRequest::PushStream(destination@),
        DirectRequest::Reverse { remote, local } => DirectRequest::Reverse {
            remote: remote@,
            local: local@,
        },
        DirectRequest::ReverseRemove(remote) => DirectRequest::ReverseRemove(remote@),
        DirectRequest::ReverseList => DirectRequest::ReverseList,
        DirectRequest::ReverseRemoveAll => DirectRequest::ReverseRemoveAll,
        DirectRequest::Forward { local, remote } => DirectRequest::Forward {
            local: local@,
            remote: remote@,
        },
        DirectRequest::ForwardList => DirectRequest::ForwardList,
        DirectRequest::ForwardRemove(local) => DirectRequest::ForwardRemove(local@),
        DirectRequest::ForwardRemoveAll => DirectRequest::ForwardRemoveAll,
        DirectRequest::Root => DirectRequest::Root,
        DirectRequest::Remount => DirectRequest::Remount,
        DirectRequest::TcpIp(port) => DirectRequest::TcpIp(port),
        DirectRequest::DeviceInfo => DirectRequest::DeviceInfo,
    }
}

/// The fields of a request between tabs.
pub open spec fn fields(request: Seq<char>) -> Seq<Seq<char>> {
    split(request, '\t')
}

/// What comes behind the first tab of a request, where there is one.
pub open spec fn behind_tab(request: Seq<char>, missing: Seq<char>) -> Result<
    Seq<char>,
    Seq<char>,
> {
    if fields(request).len() > 1 {
        Ok(request.skip((fields(request)[0].len() + 1) as int))
    } else {
        Err(missing)
    }
}

/// A field of a request, where it is there.
pub open spec fn field(request: Seq<char>, i: int, missing: Seq<char>) -> Result<
    Seq<char>,
    Seq<char>,
> {
    if i < fields(request).len() {
        Ok(fields(request)[i])
    } else {
        Err(missing)
    }
}

/// A field of a request, or nothing.
pub open spec fn optional_field(request: Seq<char>, i: int) -> Seq<char> {
    if i < fields(request).len() {
        fields(request)[i]
    } else {
        seq![]
    }
}

/// Whether the flags for the package manager are all known.
pub open spec fn flags_known(flags: Seq<char>) -> bool {
    forall|i: int| 0 <= i < words(flags).len() ==> install_flag(#[trigger] words(flags)[i])
}

/// What a request to install says.
pub open spec fn install_request(request: Seq<char>) -> Result<
    DirectRequest<Seq<char>>,
    Seq<char>,
> {
    match field(request, 1, "missing APK"@) {
        Err(error) => Err(error),
        Ok(source) => {
            let flags = optional_field(request, 2);
            let user = optional_field(request, 3);
            if !flags_known(flags) {
                Err("unsupported install options"@)
            } else if !all_digits(user) {
                Err("invalid install user"@)
            } else {
                Ok(DirectRequest::Install { source, flags, user })
            }
        },
    }
}

/// What a request to remove a package says.
pub open spec fn uninstall_request(request: Seq<char>) -> Result<
    DirectRequest<Seq<char>>,
    Seq<char>,
> {
    match (
        field(request, 1, "missing uninstall option"@),
        field(request, 2, "missing uninstall user"@),
        field(request, 3, "missing package"@),
    ) {
        (Err(error), _, _) => Err(error),
        (_, Err(error), _) => Err(error),
        (_, _, Err(error)) => Err(error),
        (Ok(keep), Ok(user), Ok(package)) => if !(keep.len() == 0 || keep == "-k"@)
            || package.len() == 0 || !package_chars(package) {
            Err("invalid uninstall request"@)
        } else if !all_digits(user) {
            Err("invalid uninstall user"@)
        } else {
            Ok(DirectRequest::Uninstall { keep, user, package })
        },
    }
}

/// What a request for a TCP port says.
pub open spec fn tcpip_request(request: Seq<char>) -> Result<DirectRequest<Seq<char>>, Seq<char>> {
    match field(request, 1, "missing TCP port"@) {
        Err(error) => Err(error),
        Ok(text) => match unsigned_value(text, 10, 65535) {
            None => Err(unsigned_complaint(text, 10, 65535)),
            Some(port) => if port == 0 {
                Err("TCP port must be between 1 and 65535"@)
            } else {
                Ok(DirectRequest::TcpIp(port as u16))
            },
        },
    }
}

/// A pair of fields of a request, where both are there.
pub open spec fn field_pair(request: Seq<char>, first: Seq<char>, second: Seq<char>) -> Result<
    (Seq<char>, Seq<char>),
    Seq<char>,
> {
    match (field(request, 1, first), field(request, 2, second)) {
        (Err(error), _) => Err(error),
        (_, Err(error)) => Err(error),
        (Ok(one), Ok(two)) => Ok((one, two)),
    }
}

/// What a request of the USB daemon asks for.
pub open spec fn direct_asked(request: Seq<char>) -> Result<DirectRequest<Seq<char>>, Seq<char>> {
    let command = fields(request)[0];
    if command == "SHELL"@ {
        match behind_tab(request, "missing shell command"@) {
            Ok(text) => Ok(DirectRequest::Shell(text)),
            Err(error) => Err(error),
        }
    } else if command == "EXEC"@ {
        match behind_tab(request, "missing exec command"@) {
            Ok(text) => Ok(DirectRequest::Exec(text)),
            Err(error) => Err(error),
        }
    } else if command == "PULL"@ {
        match behind_tab(request, "missing pull path"@) {
            Ok(text) => Ok(DirectRequest::Pull(text)),
            Err(error) => Err(error),
        }
    } else if command == "INSTALL"@ {
        install_request(request)
    } else if command == "UNINSTALL"@ {
        uninstall_request(request)
    } else if command == "PING"@ {
        Ok(DirectRequest::Ping)
    } else if command == "PUSH"@ {
        match field_pair(request, "missing push source"@, "missing push destination"@) {
            Ok((source, destination)) => Ok(DirectRequest::Push { source, destination }),
            Err(error) => Err(error),
        }
    } else if command == "PUSH_STREAM"@ {
        match field(request, 1, "missing push destination"@) {
            Ok(destination) => Ok(DirectRequest::PushStream(destination)),
            Err(error) => Err(error),
        }
    } else if command == "REVERSE"@ {
        match field_pair(request, "missing reverse remote"@, "missing reverse local"@) {
            Ok((remote, local)) => Ok(DirectRequest::Reverse { remote, local }),
            Err(error) => Err(error),
        }
    } else if command == "REVERSE_REMOVE"@ {
        match field(request, 1, "missing reverse remote"@) {
            Ok(remote) => Ok(DirectRequest::ReverseRemove(remote)),
            Err(error) => Err(error),
        }
    } else if command == "REVERSE_LIST"@ {
        Ok(DirectRequest::ReverseList)
    } else if command == "REVERSE_REMOVE_ALL"@ {
        Ok(DirectRequest::ReverseRemoveAll)
    } else if command == "FORWARD"@ {
        match field_pair(
            request,
            "missing local forward endpoint"@,
            "missing remote forward endpoint"@,
        ) {
            Ok((local, remote)) => Ok(DirectRequest::Forward { local, remote }),
            Err(error) => Err(error),
        }
    } else if command == "FORWARD_LIST"@ {
        Ok(DirectRequest::ForwardList)
    } else if command == "FORWARD_REMOVE"@ {
        match field(request, 1, "missing local forward endpoint"@) {
            Ok(local) => Ok(DirectRequest::ForwardRemove(local)),
            Err(error) => Err(error),
        }
    } else if command == "FORWARD_REMOVE_ALL"@ {
        Ok(DirectRequest::ForwardRemoveAll)
    } else if command == "ROOT"@ {
        Ok(DirectRequest::Root)
    } else if command == "REMOUNT"@ {
        Ok(DirectRequest::Remount)
    } else if command == "TCPIP"@ {
        tcpip_request(request)
    } else if command == "DEVICE_INFO"@ {
        Ok(DirectRequest::DeviceInfo)
    } else {
        Err("unsupported daemon request: "@ + command)
    }
}

/// What the bytes of a request are: text, or a complaint.
pub open spec fn request_text(bytes: Seq<u8>) -> Result<Seq<char>, Seq<char>> {
    if valid_utf8(bytes) {
        Ok(decode_utf8(bytes))
    } else {
        Err(utf8_complaint(bytes))
    }
}

/// Reads the bytes of a request.
pub fn read_request(bytes: &[u8]) -> (request: Result<String, String>)
    ensures
        match request_text(bytes@) {
            Ok(text) => request is Ok && request->Ok_0@ == text,
            Err(error) => complains(request, error),
        },
{
    decode(bytes)
}

/// Checks the length of a request of the USB daemon.
pub fn check_usb_length(length: u32) -> (size: Result<usize, String>)
    ensures
        if length <= MAX_USB_REQUEST {
            size is Ok && size->Ok_0 == length
        } else {
            complains(size, "request exceeds 1 MiB"@)
        },
{
    if length > MAX_USB_REQUEST as u32 {
        return Err(copy_text("request exceeds 1 MiB"));
    }
    Ok(length as usize)
}

/// Checks the length of a request of the wireless daemon.
pub fn check_wireless_length(length: u32) -> (size: Result<usize, String>)
    ensures
        if length <= MAX_WIRELESS_REQUEST {
            size is Ok && size->Ok_0 == length
        } else {
            complains(size, "request too large"@)
        },
{
    if length > MAX_WIRELESS_REQUEST as u32 {
        return Err(copy_text("request too large"));
    }
    Ok(length as usize)
}

/// The fields of a request, and the text that they came from.
struct Fields {
    list: Vec<String>,
    chars: Vec<char>,
}

impl Fields {
    spec fn of(&self, request: Seq<char>) -> bool {
        &&& texts(self.list@) == fields(request)
        &&& self.chars@ == request
        &&& self.list@.len() >= 1
    }

    /// Splits a request.
    fn new(request: &str) -> (result: Fields)
        ensures
            result.of(request@),
    {
        let chars: Vec<char> = chars_of(request);
        proof {
            crate::text::lemma_split_fields(request@, '\t');
        }
        let list: Vec<String> = split_at_char(chars.as_slice(), '\t');
        assert(texts(list@).len() == list@.len());
        Fields { list, chars }
    }

    /// A field, where it is there.
    fn get(&self, i: usize, missing: &str, Ghost(request): Ghost<Seq<char>>) -> (text: Result<
        String,
        String,
    >)
        requires
            self.of(request),
        ensures
            match field(request, i as int, missing@) {
                Ok(value) => text is Ok && text->Ok_0@ == value,
                Err(error) => complains(text, error),
            },
    {
        assert(texts(self.list@).len() == self.list@.len());
        if i < self.list.len() {
            assert(texts(self.list@)[i as int] == self.list@[i as int]@);
            Ok(copy_text(&self.list[i]))
        } else {
            Err(copy_text(missing))
        }
    }

    /// A field, or nothing.
    fn optional(&self, i: usize, Ghost(request): Ghost<Seq<char>>) -> (text: String)
        requires
            self.of(request),
        ensures
            text@ == optional_field(request, i as int),
    {
        assert(texts(self.list@).len() == self.list@.len());
        if i < self.list.len() {
            assert(texts(self.list@)[i as int] == self.list@[i as int]@);
            copy_text(&self.list[i])
        } else {
            let nothing = String::new();
            assert(nothing@ =~= seq![]);
            nothing
        }
    }

    /// What comes behind the first tab.
    fn behind(&self, missing: &str, Ghost(request): Ghost<Seq<char>>) -> (text: Result<
        String,
        String,
    >)
        requires
            self.of(request),
        ensures
            match behind_tab(request, missing@) {
                Ok(value) => text is Ok && text->Ok_0@ == value,
                Err(error) => complains(text, error),
            },
    {
        assert(texts(self.list@).len() == self.list@.len());
        if self.list.len() <= 1 {
            return Err(copy_text(missing));
        }
        let start: usize = chars_of(&self.list[0]).len();
        proof {
            assert(texts(self.list@)[0] == self.list@[0]@);
            crate::text::lemma_span(request, '\t');
            let n = crate::text::span(request, '\t') as int;
            assert(fields(request)[0] =~= request.take(n));
        }
        let end: usize = self.chars.len();
        assert(start < end);
        let rest = slice_subrange(self.chars.as_slice(), start + 1, end);
        assert(rest@ =~= request.skip(start + 1));
        Ok(string_of(rest))
    }

    /// Two fields, where both are there.
    fn pair(&self, first: &str, second: &str, Ghost(request): Ghost<Seq<char>>) -> (pair: Result<
        (String, String),
        String,
    >)
        requires
            self.of(request),
        ensures
            match field_pair(request, first@, second@) {
                Ok(value) => pair is Ok && pair->Ok_0.0@ == value.0 && pair->Ok_0.1@ == value.1,
                Err(error) => complains(pair, error),
            },
    {
        match self.get(1, first, Ghost(request)) {
            Err(error) => Err(error),
            Ok(one) => match self.get(2, second, Ghost(request)) {
                Err(error) => Err(error),
                Ok(two) => Ok((one, two)),
            },
        }
    }
}

/// Whether the flags for the package manager are all known.
fn check_flags(flags: &str) -> (known: bool)
    ensures
        known == flags_known(flags@),
{
    let chars: Vec<char> = chars_of(flags);
    let list: Vec<String> = words_of(chars.as_slice());
    let ghost all = words(flags@);
    let mut i: usize = 0;
    while i < list.len()
        invariant
            i <= list@.len(),
            all == words(flags@),
            texts(list@) == all,
            all.len() == list@.len(),
            forall|j: int| 0 <= j < i ==> install_flag(#[trigger] all[j]),
        decreases list@.len() - i,
    {
        let word: &str = list[i].as_str();
        assert(all[i as int] == word@);
        if !(same_text(word, "-r") || same_text(word, "-g") || same_text(word, "-d")) {
            return false;
        }
        i = i + 1;
    }
    true
}

/// Whether a request of the USB daemon is read as asked for.
spec fn read_as(
    request: Result<DirectRequest<String>, String>,
    asked: Result<DirectRequest<Seq<char>>, Seq<char>>,
) -> bool {
    match asked {
        Ok(value) => request is Ok && direct_view(request->Ok_0) == value,
        Err(error) => complains(request, error),
    }
}

/// Reads a request to install.
fn read_install(list: &Fields, Ghost(request): Ghost<Seq<char>>) -> (result: Result<
    DirectRequest<String>,
    String,
>)
    requires
        list.of(request),
    ensures
        read_as(result, install_request(request)),
{
    match list.get(1, "missing APK", Ghost(request)) {
        Err(error) => Err(error),
        Ok(source) => {
            let flags: String = list.optional(2, Ghost(request));
            let user: String = list.optional(3, Ghost(request));
            if !check_flags(&flags) {
                Err(copy_text("unsupported install options"))
            } else if !only_digits(&user) {
                Err(copy_text("invalid install user"))
            } else {
                Ok(DirectRequest::Install { source, flags, user })
            }
        },
    }
}

/// Reads a request to remove a package.
fn read_uninstall(list: &Fields, Ghost(request): Ghost<Seq<char>>) -> (result: Result<
    DirectRequest<String>,
    String,
>)
    requires
        list.of(request),
    ensures
        read_as(result, uninstall_request(request)),
{
    let keep: String = match list.get(1, "missing uninstall option", Ghost(request)) {
        Ok(keep) => keep,
        Err(error) => return Err(error),
    };
    let user: String = match list.get(2, "missing uninstall user", Ghost(request)) {
        Ok(user) => user,
        Err(error) => return Err(error),
    };
    let package: String = match list.get(3, "missing package", Ghost(request)) {
        Ok(package) => package,
        Err(error) => return Err(error),
    };
    if !(empty_text(&keep) || same_text(&keep, "-k")) || empty_text(&package)
        || !only_package_chars(&package) {
        return Err(copy_text("invalid uninstall request"));
    }
    if !only_digits(&user) {
        return Err(copy_text("invalid uninstall user"));
    }
    Ok(DirectRequest::Uninstall { keep, user, package })
}

/// Reads a request for a TCP port.
fn read_tcpip(list: &Fields, Ghost(request): Ghost<Seq<char>>) -> (result: Result<
    DirectRequest<String>,
    String,
>)
    requires
        list.of(request),
    ensures
        read_as(result, tcpip_request(request)),
{
    match list.get(1, "missing TCP port", Ghost(request)) {
        Err(error) => Err(error),
        Ok(text) => match read_unsigned(&text, 10, 65535) {
            Err(error) => Err(error),
            Ok(port) => if port == 0 {
                Err(copy_text("TCP port must be between 1 and 65535"))
            } else {
                Ok(DirectRequest::TcpIp(port as u16))
            },
        },
    }
}

/// Reads a request of the USB daemon.
pub fn parse_direct_request(request: &str) -> (result: Result<DirectRequest<String>, String>)
    ensures
        match direct_asked(request@) {
            Ok(asked) => result is Ok && direct_view(result->Ok_0) == asked,
            Err(error) => complains(result, error),
        },
{
    let list = Fields::new(request);
    let ghost whole = request@;
    let command: String = copy_text(&list.list[0]);
    assert(texts(list.list@)[0] == list.list@[0]@);
    if same_text(&command, "SHELL") {
        match list.behind("missing shell command", Ghost(whole)) {
            Ok(text) => Ok(DirectRequest::Shell(text)),
            Err(error) => Err(error),
        }
    } else if same_text(&command, "EXEC") {
        match list.behind("missing exec command", Ghost(whole)) {
            Ok(text) => Ok(DirectRequest::Exec(text)),
            Err(error) => Err(error),
        }
    } else if same_text(&command, "PULL") {
        match list.behind("missing pull path", Ghost(whole)) {
            Ok(text) => Ok(DirectRequest::Pull(text)),
            Err(error) => Err(error),
        }
    } else if same_text(&command, "INSTALL") {
        read_install(&list, Ghost(whole))
    } else if same_text(&command, "UNINSTALL") {
        read_uninstall(&list, Ghost(whole))
    } else if same_text(&command, "PING") {
        Ok(DirectRequest::Ping)
    } else if same_text(&command, "PUSH") {
        match list.pair("missing push source", "missing push destination", Ghost(whole)) {
            Ok((source, destination)) => Ok(DirectRequest::Push { source, destination }),
            Err(error) => Err(error),
        }
    } else if same_text(&command, "PUSH_STREAM") {
        match list.get(1, "missing push destination", Ghost(whole)) {
            Ok(destination) => Ok(DirectRequest::PushStream(destination)),
            Err(error) => Err(error),
        }
    } else if same_text(&command, "REVERSE") {
        match list.pair("missing reverse remote", "missing reverse local", Ghost(whole)) {
            Ok((remote, local)) => Ok(DirectRequest::Reverse { remote, local }),
            Err(error) => Err(error),
        }
    } else if same_text(&command, "REVERSE_REMOVE") {
        match list.get(1, "missing reverse remote", Ghost(whole)) {
            Ok(remote) => Ok(DirectRequest::ReverseRemove(remote)),
            Err(error) => Err(error),
        }
    } else if same_text(&command, "REVERSE_LIST") {
        Ok(DirectRequest::ReverseList)
    } else if same_text(&command, "REVERSE_REMOVE_ALL") {
        Ok(DirectRequest::ReverseRemoveAll)
    } else if same_text(&command, "FORWARD") {
        match list.pair(
            "missing local forward endpoint",
            "missing remote forward endpoint",
            Ghost(whole),
        ) {
            Ok((local, remote)) => Ok(DirectRequest::Forward { local, remote }),
            Err(error) => Err(error),
        }
    } else if same_text(&command, "FORWARD_LIST") {
        Ok(DirectRequest::ForwardList)
    } else if same_text(&command, "FORWARD_REMOVE") {
        match list.get(1, "missing local forward endpoint", Ghost(whole)) {
            Ok(local) => Ok(DirectRequest::ForwardRemove(local)),
            Err(error) => Err(error),
        }
    } else if same_text(&command, "FORWARD_REMOVE_ALL") {
        Ok(DirectRequest::ForwardRemoveAll)
    } else if same_text(&command, "ROOT") {
        Ok(DirectRequest::Root)
    } else if same_text(&command, "REMOUNT") {
        Ok(DirectRequest::Remount)
    } else if same_text(&command, "TCPIP") {
        read_tcpip(&list, Ghost(whole))
    } else if same_text(&command, "DEVICE_INFO") {
        Ok(DirectRequest::DeviceInfo)
    } else {
        Err(plus(copy_text("unsupported daemon request: "), &command))
    }
}

/// A request of the wireless daemon.
#[derive(Debug)]
pub enum WirelessRequest<T> {
    /// Do nothing.
    Ping,
    /// Add a forwarding rule.
    Forward {
        /// The endpoint on the host.
        local: T,
        /// The endpoint on the device.
        remote: T,
    },
    /// List the forwarding rules.
    List,
    /// Remove a forwarding rule.
    Remove(T),
    /// Remove every forwarding rule.
    RemoveAll,
}

/// What a request of the wireless daemon says.
pub open spec fn wireless_view(request: WirelessRequest<String>) -> WirelessRequest<Seq<char>> {
    match request {
        WirelessRequest::Ping => WirelessRequest::Ping,
        WirelessRequest::Forward { local, remote } => WirelessRequest::Forward {
            local: local@,
            remote: remote@,
        },
        WirelessRequest::List => WirelessRequest::List,
        WirelessRequest::Remove(local) => WirelessRequest::Remove(local@),
        WirelessRequest::RemoveAll => WirelessRequest::RemoveAll,
    }
}

/// What a request of the wireless daemon asks for.
pub open spec fn wireless_asked(request: Seq<char>) -> Result<
    WirelessRequest<Seq<char>>,
    Seq<char>,
> {
    let command = fields(request)[0];
    if command == "PING"@ {
        Ok(WirelessRequest::Ping)
    } else if command == "FORWARD"@ {
        match field_pair(request, "missing local endpoint"@, "missing remote endpoint"@) {
            Ok((local, remote)) => if fields(request).len() > 3 {
                Err("invalid forward request"@)
            } else {
                Ok(WirelessRequest::Forward { local, remote })
            },
            Err(error) => Err(error),
        }
    } else if command == "LIST"@ {
        Ok(WirelessRequest::List)
    } else if command == "REMOVE"@ {
        match field(request, 1, "missing local endpoint"@) {
            Ok(local) => Ok(WirelessRequest::Remove(local)),
            Err(error) => Err(error),
        }
    } else if command == "REMOVE_ALL"@ {
        Ok(WirelessRequest::RemoveAll)
    } else {
        Err("unsupported wireless daemon request: "@ + command)
    }
}

/// Reads a request of the wireless daemon.
pub fn parse_wireless_request(request: &str) -> (result: Result<WirelessRequest<String>, String>)
    ensures
        match wireless_asked(request@) {
            Ok(asked) => result is Ok && wireless_view(result->Ok_0) == asked,
            Err(error) => complains(result, error),
        },
{
    let list = Fields::new(request);
    let ghost whole = request@;
    let command: String = copy_text(&list.list[0]);
    assert(texts(list.list@)[0] == list.list@[0]@);
    assert(texts(list.list@).len() == list.list@.len());
    if same_text(&command, "PING") {
        Ok(WirelessRequest::Ping)
    } else if same_text(&command, "FORWARD") {
        match list.pair("missing local endpoint", "missing remote endpoint", Ghost(whole)) {
            Ok((local, remote)) => if list.list.len() > 3 {
                Err(copy_text("invalid forward request"))
            } else {
                Ok(WirelessRequest::Forward { local, remote })
            },
            Err(error) => Err(error),
        }
    } else if same_text(&command, "LIST") {
        Ok(WirelessRequest::List)
    } else if same_text(&command, "REMOVE") {
        match list.get(1, "missing local endpoint", Ghost(whole)) {
            Ok(local) => Ok(WirelessRequest::Remove(local)),
            Err(error) => Err(error),
        }
    } else if same_text(&command, "REMOVE_ALL") {
        Ok(WirelessRequest::RemoveAll)
    } else {
        Err(plus(copy_text("unsupported wireless daemon request: "), &command))
    }
}

/// What stands behind the word of a request, and its fields where it has no other tab.
proof fn lemma_one_field(word: Seq<char>, rest: Seq<char>)
    requires
        !word.contains('\t'),
    ensures
        ({
            let line = word + seq!['\t'] + rest;
            &&& fields(line).len() > 1
            &&& fields(line)[0] == word
            &&& line.skip(word.len() as int + 1) == rest
            &&& !rest.contains('\t') ==> fields(line) == seq![word, rest]
            &&& fields(word) == seq![word]
        }),
{
    let line = word + seq!['\t'] + rest;
    lemma_split_join(word, '\t', rest);
    lemma_split_fields(rest, '\t');
    splitting_and_joining(seq![word], '\t', word);
    assert(fields(line)[0] == word);
    assert(line.skip(word.len() as int + 1) =~= rest);
    if !rest.contains('\t') {
        splitting_and_joining(seq![rest], '\t', rest);
        assert(fields(line) =~= seq![word, rest]);
    }
}

/// The fields of a request with two of them behind its word.
proof fn lemma_two_fields(word: Seq<char>, first: Seq<char>, second: Seq<char>)
    requires
        !word.contains('\t'),
        !first.contains('\t'),
        !second.contains('\t'),
    ensures
        fields(word + seq!['\t'] + first + seq!['\t'] + second) == seq![word, first, second],
{
    lemma_one_field(first, second);
    let rest = first + seq!['\t'] + second;
    assert(word + seq!['\t'] + first + seq!['\t'] + second =~= word + seq!['\t'] + rest);
    lemma_split_join(word, '\t', rest);
    splitting_and_joining(seq![word], '\t', word);
    assert(fields(word + seq!['\t'] + rest) =~= seq![word, first, second]);
}

/// A command to run, or a path to fetch, is all that stands behind the word, tabs and
/// all.
pub proof fn commands_are_what_stands_behind_their_word(rest: Seq<char>)
    ensures
        direct_asked("SHELL"@ + seq!['\t'] + rest) == Ok::<
            DirectRequest<Seq<char>>,
            Seq<char>,
        >(DirectRequest::Shell(rest)),
        direct_asked("SHELL"@) is Err,
        direct_asked("EXEC"@ + seq!['\t'] + rest) == Ok::<
            DirectRequest<Seq<char>>,
            Seq<char>,
        >(DirectRequest::Exec(rest)),
        direct_asked("EXEC"@) is Err,
        direct_asked("PULL"@ + seq!['\t'] + rest) == Ok::<
            DirectRequest<Seq<char>>,
            Seq<char>,
        >(DirectRequest::Pull(rest)),
        direct_asked("PULL"@) is Err,
{
    reveal_strlit("SHELL");
    reveal_strlit("EXEC");
    reveal_strlit("PULL");
    lemma_one_field("SHELL"@, rest);
    lemma_one_field("EXEC"@, rest);
    lemma_one_field("PULL"@, rest);
}

/// Requests with two fields keep them apart and in order: an upload names its source
/// first, a reverse route its end on the device, and a forwarding rule its end on the
/// host.
pub proof fn pairs_keep_their_order(first: Seq<char>, second: Seq<char>)
    requires
        !first.contains('\t'),
        !second.contains('\t'),
    ensures
        direct_asked("PUSH"@ + seq!['\t'] + first + seq!['\t'] + second) == Ok::<
            DirectRequest<Seq<char>>,
            Seq<char>,
        >(
            DirectRequest::Push { source: first, destination: second },
        ),
        direct_asked("PUSH"@ + seq!['\t'] + first) is Err,
        direct_asked("REVERSE"@ + seq!['\t'] + first + seq!['\t'] + second) == Ok::<
            DirectRequest<Seq<char>>,
            Seq<char>,
        >(
            DirectRequest::Reverse { remote: first, local: second },
        ),
        direct_asked("REVERSE"@ + seq!['\t'] + first) is Err,
        direct_asked("FORWARD"@ + seq!['\t'] + first + seq!['\t'] + second) == Ok::<
            DirectRequest<Seq<char>>,
            Seq<char>,
        >(
            DirectRequest::Forward { local: first, remote: second },
        ),
        direct_asked("FORWARD"@ + seq!['\t'] + first) is Err,
{
    reveal_strlit("SHELL");
    reveal_strlit("EXEC");
    reveal_strlit("PULL");
    reveal_strlit("INSTALL");
    reveal_strlit("UNINSTALL");
    reveal_strlit("PING");
    reveal_strlit("PUSH");
    reveal_strlit("PUSH_STREAM");
    reveal_strlit("REVERSE");
    reveal_strlit("REVERSE_REMOVE");
    reveal_strlit("REVERSE_LIST");
    reveal_strlit("REVERSE_REMOVE_ALL");
    reveal_strlit("FORWARD");
    assert("PULL"@[2] == 'L' && "PUSH"@[2] == 'S' && "PING"@[2] == 'N' && "EXEC"@[2] == 'E');
    assert("INSTALL"@[2] == 'S' && "REVERSE"@[2] == 'V' && "FORWARD"@[2] == 'R');
    lemma_one_field("PUSH"@, first);
    lemma_two_fields("PUSH"@, first, second);
    lemma_one_field("REVERSE"@, first);
    lemma_two_fields("REVERSE"@, first, second);
    lemma_one_field("FORWARD"@, first);
    lemma_two_fields("FORWARD"@, first, second);
}

/// Requests with one field.
pub proof fn single_fields_are_kept(field: Seq<char>)
    requires
        !field.contains('\t'),
    ensures
        direct_asked("PUSH_STREAM"@ + seq!['\t'] + field) == Ok::<
            DirectRequest<Seq<char>>,
            Seq<char>,
        >(DirectRequest::PushStream(field)),
        direct_asked("PUSH_STREAM"@) is Err,
        direct_asked("REVERSE_REMOVE"@ + seq!['\t'] + field) == Ok::<
            DirectRequest<Seq<char>>,
            Seq<char>,
        >(DirectRequest::ReverseRemove(field)),
        direct_asked("REVERSE_REMOVE"@) is Err,
        direct_asked("FORWARD_REMOVE"@ + seq!['\t'] + field) == Ok::<
            DirectRequest<Seq<char>>,
            Seq<char>,
        >(DirectRequest::ForwardRemove(field)),
        direct_asked("FORWARD_REMOVE"@) is Err,
{
    reveal_strlit("SHELL");
    reveal_strlit("EXEC");
    reveal_strlit("PULL");
    reveal_strlit("INSTALL");
    reveal_strlit("UNINSTALL");
    reveal_strlit("PING");
    reveal_strlit("PUSH");
    reveal_strlit("PUSH_STREAM");
    reveal_strlit("REVERSE");
    reveal_strlit("REVERSE_REMOVE");
    reveal_strlit("REVERSE_LIST");
    reveal_strlit("REVERSE_REMOVE_ALL");
    reveal_strlit("FORWARD");
    reveal_strlit("FORWARD_LIST");
    reveal_strlit("FORWARD_REMOVE");
    lemma_one_field("PUSH_STREAM"@, field);
    lemma_one_field("REVERSE_REMOVE"@, field);
    lemma_one_field("FORWARD_REMOVE"@, field);
}

/// Requests that are a word alone, each for what it says.
#[verifier::spinoff_prover]
#[verifier::rlimit(50)]
pub proof fn words_alone_are_understood()
    ensures
        direct_asked("PING"@) == Ok::<
            DirectRequest<Seq<char>>,
            Seq<char>,
        >(DirectRequest::Ping),
        direct_asked("REVERSE_LIST"@) == Ok::<
            DirectRequest<Seq<char>>,
            Seq<char>,
        >(DirectRequest::ReverseList),
        direct_asked("REVERSE_REMOVE_ALL"@) == Ok::<
            DirectRequest<Seq<char>>,
            Seq<char>,
        >(DirectRequest::ReverseRemoveAll),
        direct_asked("FORWARD_LIST"@) == Ok::<
            DirectRequest<Seq<char>>,
            Seq<char>,
        >(DirectRequest::ForwardList),
        direct_asked("FORWARD_REMOVE_ALL"@) == Ok::<
            DirectRequest<Seq<char>>,
            Seq<char>,
        >(DirectRequest::ForwardRemoveAll),
        direct_asked("ROOT"@) == Ok::<
            DirectRequest<Seq<char>>,
            Seq<char>,
        >(DirectRequest::Root),
        direct_asked("REMOUNT"@) == Ok::<
            DirectRequest<Seq<char>>,
            Seq<char>,
        >(DirectRequest::Remount),
        direct_asked("DEVICE_INFO"@) == Ok::<
            DirectRequest<Seq<char>>,
            Seq<char>,
        >(DirectRequest::DeviceInfo),
{
    reveal_strlit("SHELL");
    reveal_strlit("EXEC");
    reveal_strlit("PULL");
    reveal_strlit("INSTALL");
    reveal_strlit("UNINSTALL");
    reveal_strlit("PING");
    reveal_strlit("PUSH");
    reveal_strlit("PUSH_STREAM");
    reveal_strlit("REVERSE");
    reveal_strlit("REVERSE_REMOVE");
    reveal_strlit("REVERSE_LIST");
    reveal_strlit("REVERSE_REMOVE_ALL");
    reveal_strlit("FORWARD");
    reveal_strlit("FORWARD_LIST");
    reveal_strlit("FORWARD_REMOVE");
    reveal_strlit("FORWARD_REMOVE_ALL");
    reveal_strlit("ROOT");
    reveal_strlit("REMOUNT");
    reveal_strlit("TCPIP");
    reveal_strlit("DEVICE_INFO");
    assert("PULL"@[2] == 'L' && "PUSH"@[2] == 'S' && "PING"@[2] == 'N' && "EXEC"@[2] == 'E'
        && "ROOT"@[2] == 'O');
    assert("INSTALL"@[2] == 'S' && "REVERSE"@[2] == 'V' && "FORWARD"@[2] == 'R'
        && "REMOUNT"@[2] == 'M');
    assert("SHELL"@[0] == 'S' && "TCPIP"@[0] == 'T');
    assert("PUSH_STREAM"@[0] == 'P' && "DEVICE_INFO"@[0] == 'D');
    assert("REVERSE_REMOVE"@[0] == 'R' && "FORWARD_REMOVE"@[0] == 'F');
    assert("REVERSE_LIST"@[0] == 'R' && "FORWARD_LIST"@[0] == 'F');
    assert("REVERSE_REMOVE_ALL"@[0] == 'R' && "FORWARD_REMOVE_ALL"@[0] == 'F');
    lemma_one_field("PING"@, seq![]);
    lemma_one_field("REVERSE_LIST"@, seq![]);
    lemma_one_field("REVERSE_REMOVE_ALL"@, seq![]);
    lemma_one_field("FORWARD_LIST"@, seq![]);
    lemma_one_field("FORWARD_REMOVE_ALL"@, seq![]);
    lemma_one_field("ROOT"@, seq![]);
    lemma_one_field("REMOUNT"@, seq![]);
    lemma_one_field("DEVICE_INFO"@, seq![]);
}

/// A word alone that is none of those is refused.
#[verifier::spinoff_prover]
#[verifier::rlimit(50)]
pub proof fn other_words_are_refused(word: Seq<char>)
    requires
        !word.contains('\t'),
        word != "PING"@,
        word != "REVERSE_LIST"@,
        word != "REVERSE_REMOVE_ALL"@,
        word != "FORWARD_LIST"@,
        word != "FORWARD_REMOVE_ALL"@,
        word != "ROOT"@,
        word != "REMOUNT"@,
        word != "DEVICE_INFO"@,
    ensures
        direct_asked(word) is Err,
{
    lemma_one_field(word, seq![]);
    assert(fields(word)[0] == word);
}

/// A port to listen on is a number of sixteen bits that is not zero.
pub proof fn ports_are_not_zero(port: nat)
    ensures
        direct_asked("TCPIP"@ + seq!['\t'] + decimal(port)) == if 0 < port <= 65535 {
            Ok::<DirectRequest<Seq<char>>, Seq<char>>(DirectRequest::TcpIp(port as u16))
        } else {
            Err(
                if port == 0 {
                    "TCP port must be between 1 and 65535"@
                } else {
                    unsigned_complaint(decimal(port), 10, 65535)
                },
            )
        },
{
    reveal_strlit("SHELL");
    reveal_strlit("EXEC");
    reveal_strlit("PULL");
    reveal_strlit("INSTALL");
    reveal_strlit("UNINSTALL");
    reveal_strlit("PING");
    reveal_strlit("PUSH");
    reveal_strlit("PUSH_STREAM");
    reveal_strlit("REVERSE");
    reveal_strlit("REVERSE_REMOVE");
    reveal_strlit("REVERSE_LIST");
    reveal_strlit("REVERSE_REMOVE_ALL");
    reveal_strlit("FORWARD");
    reveal_strlit("FORWARD_LIST");
    reveal_strlit("FORWARD_REMOVE");
    reveal_strlit("FORWARD_REMOVE_ALL");
    reveal_strlit("ROOT");
    reveal_strlit("REMOUNT");
    reveal_strlit("TCPIP");
    decimals_are_read_back(port, 65535);
    numbers_are_read_back(port, 10, 1);
    let text = decimal(port);
    assert(!text.contains('\t')) by {
        if text.contains('\t') {
            let i = choose|i: int| 0 <= i < text.len() && text[i] == '\t';
            assert('0' <= text[i] <= '9');
        }
    }
    lemma_one_field("TCPIP"@, text);
}

/// A package is installed from its file, with options that are known and for a user that
/// is a number. The options and the user may be left out.
pub proof fn installs_are_understood(source: Seq<char>, flags: Seq<char>, user: Seq<char>)
    requires
        !source.contains('\t'),
        !flags.contains('\t'),
        !user.contains('\t'),
    ensures
        ({
            let known = forall|i: int|
                0 <= i < words(flags).len() ==> (#[trigger] words(flags)[i] == "-r"@
                    || words(flags)[i] == "-g"@ || words(flags)[i] == "-d"@);
            let numbered = forall|i: int| 0 <= i < user.len() ==> '0' <= #[trigger] user[i] <= '9';
            let asked = direct_asked(
                "INSTALL"@ + seq!['\t'] + source + seq!['\t'] + flags + seq!['\t'] + user,
            );
            &&& asked is Ok <==> known && numbered
            &&& asked matches Ok(request) ==> request == (DirectRequest::Install {
                source,
                flags,
                user,
            })
        }),
{
    reveal_strlit("SHELL");
    reveal_strlit("EXEC");
    reveal_strlit("PULL");
    reveal_strlit("INSTALL");
    lemma_two_fields("INSTALL"@, source, flags);
    let front = "INSTALL"@ + seq!['\t'] + source + seq!['\t'] + flags;
    lemma_split_join(front, '\t', user);
    splitting_and_joining(seq![user], '\t', user);
    let line = front + seq!['\t'] + user;
    assert(fields(line) =~= seq!["INSTALL"@, source, flags, user]);
    let list = words(flags);
    if flags_known(flags) {
        assert forall|i: int| 0 <= i < list.len() implies (#[trigger] list[i] == "-r"@ || list[i]
            == "-g"@ || list[i] == "-d"@) by {
            assert(install_flag(list[i]));
        }
    }
}

/// A package is removed by its name, with or without its data, and for a user that is a
/// number.
pub proof fn uninstalls_are_understood(keep: Seq<char>, user: Seq<char>, package: Seq<char>)
    requires
        !keep.contains('\t'),
        !user.contains('\t'),
        !package.contains('\t'),
    ensures
        ({
            let kept = keep.len() == 0 || keep == "-k"@;
            let numbered = forall|i: int| 0 <= i < user.len() ==> '0' <= #[trigger] user[i] <= '9';
            let asked = direct_asked(
                "UNINSTALL"@ + seq!['\t'] + keep + seq!['\t'] + user + seq!['\t'] + package,
            );
            &&& asked is Ok <==> kept && numbered && package.len() > 0 && package_chars(package)
            &&& asked matches Ok(request) ==> request == (DirectRequest::Uninstall {
                keep,
                user,
                package,
            })
        }),
{
    reveal_strlit("SHELL");
    reveal_strlit("EXEC");
    reveal_strlit("PULL");
    reveal_strlit("INSTALL");
    reveal_strlit("UNINSTALL");
    lemma_two_fields("UNINSTALL"@, keep, user);
    let front = "UNINSTALL"@ + seq!['\t'] + keep + seq!['\t'] + user;
    lemma_split_join(front, '\t', package);
    splitting_and_joining(seq![package], '\t', package);
    let line = front + seq!['\t'] + package;
    assert(fields(line) =~= seq!["UNINSTALL"@, keep, user, package]);
}

/// The requests of a daemon for a device over TCP: its rules are added with the end on the
/// host first, listed, and removed.
pub proof fn rules_over_tcp_are_understood(first: Seq<char>, second: Seq<char>, word: Seq<char>)
    requires
        !first.contains('\t'),
        !second.contains('\t'),
        !word.contains('\t'),
    ensures
        wireless_asked("FORWARD"@ + seq!['\t'] + first + seq!['\t'] + second) == Ok::<
            WirelessRequest<Seq<char>>,
            Seq<char>,
        >(WirelessRequest::Forward { local: first, remote: second }),
        wireless_asked("REMOVE"@ + seq!['\t'] + first) == Ok::<
            WirelessRequest<Seq<char>>,
            Seq<char>,
        >(WirelessRequest::Remove(first)),
        wireless_asked("LIST"@) == Ok::<WirelessRequest<Seq<char>>, Seq<char>>(
            WirelessRequest::List,
        ),
        wireless_asked("REMOVE_ALL"@) == Ok::<WirelessRequest<Seq<char>>, Seq<char>>(
            WirelessRequest::RemoveAll,
        ),
        wireless_asked("PING"@) == Ok::<WirelessRequest<Seq<char>>, Seq<char>>(
            WirelessRequest::Ping,
        ),
        wireless_asked(word) is Ok <==> word == "LIST"@ || word == "REMOVE_ALL"@ || word
            == "PING"@,
{
    reveal_strlit("PING");
    reveal_strlit("FORWARD");
    reveal_strlit("LIST");
    reveal_strlit("REMOVE");
    reveal_strlit("REMOVE_ALL");
    lemma_two_fields("FORWARD"@, first, second);
    lemma_one_field("REMOVE"@, first);
    lemma_one_field("LIST"@, seq![]);
    lemma_one_field("REMOVE_ALL"@, seq![]);
    lemma_one_field("PING"@, seq![]);
    lemma_one_field(word, seq![]);
}

/// A request is the text that its bytes spell.
pub proof fn requests_are_texts(text: Seq<char>, bytes: Seq<u8>)
    ensures
        request_text(encode_utf8(text)) == Ok::<Seq<char>, Seq<char>>(text),
        request_text(bytes) is Ok <==> valid_utf8(bytes),
{
    encode_utf8_valid_utf8(text);
    encode_utf8_decode_utf8(text);
}

/// A request whose word the daemon does not know is refused with that word.
pub proof fn unknown_requests_are_told(request: Seq<char>)
    ensures
        ({
            let word = split(request, '\t')[0];
            &&& word != "SHELL"@ && word != "EXEC"@ && word != "PULL"@ && word != "INSTALL"@ && word
                != "UNINSTALL"@ && word != "PING"@ && word != "PUSH"@ && word != "PUSH_STREAM"@
                && word != "REVERSE"@ && word != "REVERSE_REMOVE"@ && word != "REVERSE_LIST"@
                && word != "REVERSE_REMOVE_ALL"@ && word != "FORWARD"@ && word != "FORWARD_LIST"@
                && word != "FORWARD_REMOVE"@ && word != "FORWARD_REMOVE_ALL"@ && word != "ROOT"@
                && word != "REMOUNT"@ && word != "TCPIP"@ && word != "DEVICE_INFO"@
                ==> direct_asked(request) == Err::<DirectRequest<Seq<char>>, Seq<char>>(
                "unsupported daemon request: "@ + word,
            )
            &&& word != "PING"@ && word != "FORWARD"@ && word != "LIST"@ && word != "REMOVE"@
                && word != "REMOVE_ALL"@ ==> wireless_asked(request) == Err::<
                WirelessRequest<Seq<char>>,
                Seq<char>,
            >("unsupported wireless daemon request: "@ + word)
        }),
{
}

/// What a request lacks is named.
#[verifier::spinoff_prover]
#[verifier::rlimit(50)]
pub proof fn missing_fields_are_named(request: Seq<char>)
    ensures
        ({
            let list = split(request, '\t');
            let word = list[0];
            let asked = direct_asked(request);
            &&& list.len() == 1 ==> {
                &&& word == "SHELL"@ ==> asked == Err::<DirectRequest<Seq<char>>, Seq<char>>(
                    "missing shell command"@,
                )
                &&& word == "EXEC"@ ==> asked == Err::<DirectRequest<Seq<char>>, Seq<char>>(
                    "missing exec command"@,
                )
                &&& word == "PULL"@ ==> asked == Err::<DirectRequest<Seq<char>>, Seq<char>>(
                    "missing pull path"@,
                )
                &&& word == "INSTALL"@ ==> asked == Err::<DirectRequest<Seq<char>>, Seq<char>>(
                    "missing APK"@,
                )
                &&& word == "UNINSTALL"@ ==> asked == Err::<DirectRequest<Seq<char>>, Seq<char>>(
                    "missing uninstall option"@,
                )
                &&& word == "PUSH"@ ==> asked == Err::<DirectRequest<Seq<char>>, Seq<char>>(
                    "missing push source"@,
                )
                &&& word == "PUSH_STREAM"@ ==> asked == Err::<DirectRequest<Seq<char>>, Seq<char>>(
                    "missing push destination"@,
                )
                &&& word == "REVERSE"@ || word == "REVERSE_REMOVE"@ ==> asked == Err::<
                    DirectRequest<Seq<char>>,
                    Seq<char>,
                >("missing reverse remote"@)
                &&& word == "FORWARD"@ || word == "FORWARD_REMOVE"@ ==> asked == Err::<
                    DirectRequest<Seq<char>>,
                    Seq<char>,
                >("missing local forward endpoint"@)
                &&& word == "TCPIP"@ ==> asked == Err::<DirectRequest<Seq<char>>, Seq<char>>(
                    "missing TCP port"@,
                )
            }
            &&& list.len() == 2 ==> {
                &&& word == "UNINSTALL"@ ==> asked == Err::<DirectRequest<Seq<char>>, Seq<char>>(
                    "missing uninstall user"@,
                )
                &&& word == "PUSH"@ ==> asked == Err::<DirectRequest<Seq<char>>, Seq<char>>(
                    "missing push destination"@,
                )
                &&& word == "REVERSE"@ ==> asked == Err::<DirectRequest<Seq<char>>, Seq<char>>(
                    "missing reverse local"@,
                )
                &&& word == "FORWARD"@ ==> asked == Err::<DirectRequest<Seq<char>>, Seq<char>>(
                    "missing remote forward endpoint"@,
                )
            }
            &&& list.len() == 3 && word == "UNINSTALL"@ ==> asked == Err::<
                DirectRequest<Seq<char>>,
                Seq<char>,
            >("missing package"@)
        }),
{
    reveal_strlit("SHELL");
    reveal_strlit("EXEC");
    reveal_strlit("PULL");
    reveal_strlit("INSTALL");
    reveal_strlit("UNINSTALL");
    reveal_strlit("PING");
    reveal_strlit("PUSH");
    reveal_strlit("PUSH_STREAM");
    reveal_strlit("REVERSE");
    reveal_strlit("REVERSE_REMOVE");
    reveal_strlit("REVERSE_LIST");
    reveal_strlit("REVERSE_REMOVE_ALL");
    reveal_strlit("FORWARD");
    reveal_strlit("FORWARD_LIST");
    reveal_strlit("FORWARD_REMOVE");
    reveal_strlit("FORWARD_REMOVE_ALL");
    reveal_strlit("ROOT");
    reveal_strlit("REMOUNT");
    reveal_strlit("TCPIP");
    assert("SHELL"@.len() == 5);
    assert("EXEC"@.len() == 4);
    assert("PULL"@.len() == 4);
    assert("INSTALL"@.len() == 7);
    assert("UNINSTALL"@.len() == 9);
    assert("PING"@.len() == 4);
    assert("PUSH"@.len() == 4);
    assert("PUSH_STREAM"@.len() == 11);
    assert("REVERSE"@.len() == 7);
    assert("REVERSE_REMOVE"@.len() == 14);
    assert("REVERSE_LIST"@.len() == 12);
    assert("REVERSE_REMOVE_ALL"@.len() == 18);
    assert("FORWARD"@.len() == 7);
    assert("FORWARD_LIST"@.len() == 12);
    assert("FORWARD_REMOVE"@.len() == 14);
    assert("FORWARD_REMOVE_ALL"@.len() == 18);
    assert("ROOT"@.len() == 4);
    assert("REMOUNT"@.len() == 7);
    assert("TCPIP"@.len() == 5);
    assert("SHELL"@[0] == 'S');
    assert("TCPIP"@[0] == 'T');
    assert("EXEC"@[0] == 'E' && "EXEC"@[1] == 'X' && "EXEC"@[2] == 'E');
    assert("PULL"@[0] == 'P' && "PULL"@[1] == 'U' && "PULL"@[2] == 'L');
    assert("PING"@[0] == 'P' && "PING"@[1] == 'I' && "PING"@[2] == 'N');
    assert("PUSH"@[0] == 'P' && "PUSH"@[1] == 'U' && "PUSH"@[2] == 'S');
    assert("ROOT"@[0] == 'R' && "ROOT"@[1] == 'O' && "ROOT"@[2] == 'O');
    assert("INSTALL"@[0] == 'I' && "INSTALL"@[2] == 'S');
    assert("REVERSE"@[0] == 'R' && "REVERSE"@[2] == 'V');
    assert("FORWARD"@[0] == 'F' && "FORWARD"@[2] == 'R');
    assert("REMOUNT"@[0] == 'R' && "REMOUNT"@[2] == 'M');
    assert("REVERSE_REMOVE"@[0] == 'R');
    assert("FORWARD_REMOVE"@[0] == 'F');
    assert("REVERSE_LIST"@[0] == 'R');
    assert("FORWARD_LIST"@[0] == 'F');
    assert("REVERSE_REMOVE_ALL"@[0] == 'R');
    assert("FORWARD_REMOVE_ALL"@[0] == 'F');
}

/// A package is asked for only with what can be passed on: known flags, a user in
/// digits, and a name of the characters that names have.
pub proof fn other_package_requests_are_refused(request: Seq<char>)
    ensures
        ({
            let list = split(request, '\t');
            &&& list.len() == 3 && !flags_known(list[2]) ==> install_request(request) == Err::<
                DirectRequest<Seq<char>>,
                Seq<char>,
            >("unsupported install options"@)
            &&& list.len() == 4 && flags_known(list[2]) && !all_digits(list[3]) ==> install_request(
                request,
            ) == Err::<DirectRequest<Seq<char>>, Seq<char>>("invalid install user"@)
            &&& list.len() == 4 && (list[1].len() > 0 && list[1] != "-k"@ || list[3].len() == 0
                || !package_chars(list[3])) ==> uninstall_request(request) == Err::<
                DirectRequest<Seq<char>>,
                Seq<char>,
            >("invalid uninstall request"@)
            &&& list.len() == 4 && (list[1].len() == 0 || list[1] == "-k"@) && list[3].len() > 0
                && package_chars(list[3]) && !all_digits(list[2]) ==> uninstall_request(request)
                == Err::<DirectRequest<Seq<char>>, Seq<char>>("invalid uninstall user"@)
        }),
{
}

/// What a request of the daemon over TCP lacks, or has too much of, is named.
pub proof fn rules_need_two_ends(request: Seq<char>)
    ensures
        ({
            let list = split(request, '\t');
            let asked = wireless_asked(request);
            &&& list.len() == 1 && (list[0] == "FORWARD"@ || list[0] == "REMOVE"@) ==> asked == Err::<
                WirelessRequest<Seq<char>>,
                Seq<char>,
            >("missing local endpoint"@)
            &&& list.len() == 2 && list[0] == "FORWARD"@ ==> asked == Err::<
                WirelessRequest<Seq<char>>,
                Seq<char>,
            >("missing remote endpoint"@)
            &&& list.len() > 3 && list[0] == "FORWARD"@ ==> asked == Err::<
                WirelessRequest<Seq<char>>,
                Seq<char>,
            >("invalid forward request"@)
        }),
{
    reveal_strlit("PING");
    reveal_strlit("FORWARD");
    reveal_strlit("LIST");
    reveal_strlit("REMOVE");
    assert("PING"@.len() == 4);
    assert("FORWARD"@.len() == 7);
    assert("LIST"@.len() == 4);
    assert("REMOVE"@.len() == 6);
    assert("PING"@[0] == 'P');
    assert("LIST"@[0] == 'L');
}

} // verus!
