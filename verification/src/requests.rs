//! The arguments of the commands.

use crate::text::{
    append, begins_with, chars_of, complains, contains_char, copy_text, optional_text, same_text,
    texts,
};
use vstd::prelude::*;

verus! {

/// Whether every character is an ASCII digit.
pub open spec fn all_digits(text: Seq<char>) -> bool {
    forall|i: int| 0 <= i < text.len() ==> '0' <= #[trigger] text[i] <= '9'
}

/// Whether every character is an ASCII digit.
#[verifier::loop_isolation(false)]
pub fn only_digits(text: &str) -> (result: bool)
    ensures
        result == all_digits(text@),
{
    let chars: Vec<char> = chars_of(text);
    let mut i: usize = 0;
    while i < chars.len()
        invariant
            i <= chars@.len(),
            forall|j: int| 0 <= j < i ==> '0' <= #[trigger] chars@[j] <= '9',
        decreases chars@.len() - i,
    {
        if chars[i] < '0' || chars[i] > '9' {
            return false;
        }
        i = i + 1;
    }
    true
}

/// Whether a character may stand in the name of a package.
pub open spec fn package_char(c: char) -> bool {
    '0' <= c <= '9' || 'a' <= c <= 'z' || 'A' <= c <= 'Z' || c == '.' || c == '_'
}

/// Whether every character may stand in the name of a package.
pub open spec fn package_chars(text: Seq<char>) -> bool {
    forall|i: int| 0 <= i < text.len() ==> package_char(#[trigger] text[i])
}

/// Whether every character may stand in the name of a package.
#[verifier::loop_isolation(false)]
pub fn only_package_chars(text: &str) -> (result: bool)
    ensures
        result == package_chars(text@),
{
    let chars: Vec<char> = chars_of(text);
    let mut i: usize = 0;
    while i < chars.len()
        invariant
            i <= chars@.len(),
            forall|j: int| 0 <= j < i ==> package_char(#[trigger] chars@[j]),
        decreases chars@.len() - i,
    {
        let c: char = chars[i];
        if !((c >= '0' && c <= '9') || (c >= 'a' && c <= 'z') || (c >= 'A' && c <= 'Z') || c == '.'
            || c == '_') {
            return false;
        }
        i = i + 1;
    }
    true
}

/// Whether a text begins with a dash.
pub open spec fn dashed(text: Seq<char>) -> bool {
    text.len() > 0 && text[0] == '-'
}

/// A request to install a package.
#[derive(Debug)]
pub struct InstallRequest {
    /// The flags for the package manager.
    pub flags: Vec<String>,
    /// The user to install for.
    pub user: Option<String>,
    /// The path of the package file.
    pub source: String,
}

/// What a request to install says.
#[verifier::ext_equal]
pub ghost struct Install {
    /// The flags for the package manager.
    pub flags: Seq<Seq<char>>,
    /// The user to install for.
    pub user: Option<Seq<char>>,
    /// The path of the package file.
    pub source: Seq<char>,
}

impl InstallRequest {
    /// What the request says.
    pub open spec fn view(&self) -> Install {
        Install {
            flags: texts(self.flags@),
            user: optional_text(self.user),
            source: self.source@,
        }
    }
}

/// What the arguments of an installation have said so far.
#[verifier::ext_equal]
pub ghost struct InstallScan {
    /// The flags.
    pub flags: Seq<Seq<char>>,
    /// The user.
    pub user: Option<Seq<char>>,
    /// The path.
    pub source: Option<Seq<char>>,
}

/// Whether a text is a flag that the package manager may get.
pub open spec fn install_flag(arg: Seq<char>) -> bool {
    arg == "-r"@ || arg == "-g"@ || arg == "-d"@
}

/// Whether a text is the option that names a user.
pub open spec fn user_option(arg: Seq<char>) -> bool {
    arg == "--user"@ || arg == "-u"@
}

/// Reads the arguments of an installation from a place on.
pub open spec fn install_scan(args: Seq<Seq<char>>, index: int, scan: InstallScan) -> Result<
    InstallScan,
    Seq<char>,
>
    decreases args.len() - index,
{
    if index >= args.len() {
        Ok(scan)
    } else {
        let arg = args[index];
        if install_flag(arg) {
            install_scan(args, index + 1, InstallScan { flags: scan.flags.push(arg), ..scan })
        } else if user_option(arg) {
            if index + 1 >= args.len() {
                Err("missing install user"@)
            } else {
                install_scan(args, index + 2, InstallScan { user: Some(args[index + 1]), ..scan })
            }
        } else if dashed(arg) {
            Err("unsupported install option"@)
        } else if scan.source is Some {
            Err("install accepts exactly one APK path"@)
        } else {
            install_scan(args, index + 1, InstallScan { source: Some(arg), ..scan })
        }
    }
}

/// Whether a user is given by digits, if one is given.
pub open spec fn user_valid(user: Option<Seq<char>>) -> bool {
    user is Some ==> all_digits(user->0)
}

/// What the arguments of an installation ask for.
pub open spec fn install_asked(args: Seq<Seq<char>>) -> Result<Install, Seq<char>> {
    match install_scan(args, 1, InstallScan { flags: seq![], user: None, source: None }) {
        Err(error) => Err(error),
        Ok(scan) => match scan.source {
            None => Err("missing APK path"@),
            Some(source) => if source.contains('\n') || source.contains('\r') || source.contains(
                '\t',
            ) || !user_valid(scan.user) {
                Err("invalid install request"@)
            } else {
                Ok(Install { flags: scan.flags, user: scan.user, source })
            },
        },
    }
}

/// Whether a user is given by digits, if one is given.
fn check_user(user: &Option<String>) -> (valid: bool)
    ensures
        valid == user_valid(optional_text(*user)),
{
    match user {
        Some(user) => only_digits(user),
        None => true,
    }
}

/// Reads the arguments of an installation.
#[verifier::loop_isolation(false)]
pub fn parse_install_request(args: &[String]) -> (request: Result<InstallRequest, String>)
    ensures
        match install_asked(texts(args@)) {
            Ok(asked) => request is Ok && request->Ok_0@ == asked,
            Err(error) => complains(request, error),
        },
{
    let ghost all = texts(args@);
    let mut flags: Vec<String> = Vec::new();
    let mut user: Option<String> = None;
    let mut source: Option<String> = None;
    let total: usize = args.len();
    let mut index: usize = 1;
    let ghost start = InstallScan { flags: seq![], user: None, source: None };
    assert(texts(flags@) =~= seq![]);
    while index < args.len()
        invariant
            index >= 1,
            total == args@.len(),
            all == texts(args@),
            install_scan(all, 1, start) == install_scan(
                all,
                index as int,
                InstallScan {
                    flags: texts(flags@),
                    user: optional_text(user),
                    source: optional_text(source),
                },
            ),
        decreases args@.len() + 1 - index,
    {
        let arg: &str = args[index].as_str();
        assert(all[index as int] == arg@);
        if same_text(arg, "-r") || same_text(arg, "-g") || same_text(arg, "-d") {
            let ghost before = texts(flags@);
            flags.push(copy_text(arg));
            assert(texts(flags@) =~= before.push(arg@));
        } else if same_text(arg, "--user") || same_text(arg, "-u") {
            index = index + 1;
            if index >= args.len() {
                return Err(copy_text("missing install user"));
            }
            assert(all[index as int] == args@[index as int]@);
            user = Some(copy_text(&args[index]));
        } else if begins_with(arg, '-') {
            return Err(copy_text("unsupported install option"));
        } else {
            if source.is_some() {
                return Err(copy_text("install accepts exactly one APK path"));
            }
            source = Some(copy_text(arg));
        }
        index = index + 1;
    }
    let source: String = match source {
        Some(source) => source,
        None => return Err(copy_text("missing APK path")),
    };
    if contains_char(&source, '\n') || contains_char(&source, '\r') || contains_char(&source, '\t')
        || !check_user(&user) {
        return Err(copy_text("invalid install request"));
    }
    Ok(InstallRequest { flags, user, source })
}

/// A request to remove a package.
#[derive(Debug)]
pub struct UninstallRequest {
    /// Whether the data of the package stays.
    pub keep_data: bool,
    /// The user to remove it for.
    pub user: Option<String>,
    /// The name of the package.
    pub package: String,
}

/// What a request to remove a package says.
#[verifier::ext_equal]
pub ghost struct Uninstall {
    /// Whether the data of the package stays.
    pub keep_data: bool,
    /// The user to remove it for.
    pub user: Option<Seq<char>>,
    /// The name of the package.
    pub package: Seq<char>,
}

impl UninstallRequest {
    /// What the request says.
    pub open spec fn view(&self) -> Uninstall {
        Uninstall {
            keep_data: self.keep_data,
            user: optional_text(self.user),
            package: self.package@,
        }
    }
}

/// What the arguments of a removal have said so far.
#[verifier::ext_equal]
pub ghost struct UninstallScan {
    /// Whether the data stays.
    pub keep_data: bool,
    /// The user.
    pub user: Option<Seq<char>>,
    /// The name.
    pub package: Option<Seq<char>>,
}

/// Reads the arguments of a removal from a place on.
pub open spec fn uninstall_scan(args: Seq<Seq<char>>, index: int, scan: UninstallScan) -> Result<
    UninstallScan,
    Seq<char>,
>
    decreases args.len() - index,
{
    if index >= args.len() {
        Ok(scan)
    } else {
        let arg = args[index];
        if arg == "-k"@ {
            uninstall_scan(args, index + 1, UninstallScan { keep_data: true, ..scan })
        } else if user_option(arg) {
            if index + 1 >= args.len() {
                Err("missing uninstall user"@)
            } else {
                uninstall_scan(
                    args,
                    index + 2,
                    UninstallScan { user: Some(args[index + 1]), ..scan },
                )
            }
        } else if dashed(arg) {
            Err("unsupported uninstall option"@)
        } else if scan.package is Some {
            Err("uninstall accepts exactly one package name"@)
        } else {
            uninstall_scan(args, index + 1, UninstallScan { package: Some(arg), ..scan })
        }
    }
}

/// What the arguments of a removal ask for.
pub open spec fn uninstall_asked(args: Seq<Seq<char>>) -> Result<Uninstall, Seq<char>> {
    match uninstall_scan(args, 1, UninstallScan { keep_data: false, user: None, package: None }) {
        Err(error) => Err(error),
        Ok(scan) => match scan.package {
            None => Err("missing package name"@),
            Some(package) => if !package_chars(package) || !user_valid(scan.user) {
                Err("invalid uninstall request"@)
            } else {
                Ok(Uninstall { keep_data: scan.keep_data, user: scan.user, package })
            },
        },
    }
}

/// Reads the arguments of a removal.
#[verifier::loop_isolation(false)]
pub fn parse_uninstall_request(args: &[String]) -> (request: Result<UninstallRequest, String>)
    ensures
        match uninstall_asked(texts(args@)) {
            Ok(asked) => request is Ok && request->Ok_0@ == asked,
            Err(error) => complains(request, error),
        },
{
    let ghost all = texts(args@);
    let mut keep_data = false;
    let mut user: Option<String> = None;
    let mut package: Option<String> = None;
    let total: usize = args.len();
    let mut index: usize = 1;
    let ghost start = UninstallScan { keep_data: false, user: None, package: None };
    while index < args.len()
        invariant
            index >= 1,
            total == args@.len(),
            all == texts(args@),
            uninstall_scan(all, 1, start) == uninstall_scan(
                all,
                index as int,
                UninstallScan {
                    keep_data,
                    user: optional_text(user),
                    package: optional_text(package),
                },
            ),
        decreases args@.len() + 1 - index,
    {
        let arg: &str = args[index].as_str();
        assert(all[index as int] == arg@);
        if same_text(arg, "-k") {
            keep_data = true;
        } else if same_text(arg, "--user") || same_text(arg, "-u") {
            index = index + 1;
            if index >= args.len() {
                return Err(copy_text("missing uninstall user"));
            }
            assert(all[index as int] == args@[index as int]@);
            user = Some(copy_text(&args[index]));
        } else if begins_with(arg, '-') {
            return Err(copy_text("unsupported uninstall option"));
        } else {
            if package.is_some() {
                return Err(copy_text("uninstall accepts exactly one package name"));
            }
            package = Some(copy_text(arg));
        }
        index = index + 1;
    }
    let package: String = match package {
        Some(package) => package,
        None => return Err(copy_text("missing package name")),
    };
    if !only_package_chars(&package) || !check_user(&user) {
        return Err(copy_text("invalid uninstall request"));
    }
    Ok(UninstallRequest { keep_data, user, package })
}

/// The options of a transfer.
#[derive(Clone, Copy, Debug, Default, PartialEq, Eq, Structural)]
pub struct TransferOptions {
    /// Keep modes and modification times of downloaded files.
    pub archive: bool,
    /// Only print what would be done.
    pub dry_run: bool,
    /// Print nothing.
    pub quiet: bool,
    /// Skip files that are current on the device.
    pub sync: bool,
}

/// A request to transfer files: its options, and its paths with the destination
/// last.
#[derive(Debug, PartialEq, Eq)]
pub struct TransferRequest {
    /// The options.
    pub options: TransferOptions,
    /// The paths.
    pub paths: Vec<String>,
}

/// What a request to transfer files says.
#[verifier::ext_equal]
pub ghost struct Transfer {
    /// The options.
    pub options: TransferOptions,
    /// The paths.
    pub paths: Seq<Seq<char>>,
}

impl TransferRequest {
    /// What the request says.
    pub open spec fn view(&self) -> Transfer {
        Transfer { options: self.options, paths: texts(self.paths@) }
    }
}

/// The refusal of compression.
pub open spec fn no_compression(operation: Seq<char>) -> Seq<char> {
    operation + " compression options are not supported by the bundled adb client"@
}

/// Reads the arguments of a transfer from a place on.
pub open spec fn transfer_scan(
    args: Seq<Seq<char>>,
    operation: Seq<char>,
    index: int,
    scan: Transfer,
) -> Result<Transfer, Seq<char>>
    decreases args.len() - index,
{
    if index >= args.len() {
        Ok(scan)
    } else {
        let arg = args[index];
        let with = |options: TransferOptions|
            transfer_scan(args, operation, index + 1, Transfer { options, ..scan });
        if arg == "-a"@ && operation == "pull"@ {
            with(TransferOptions { archive: true, ..scan.options })
        } else if arg == "--sync"@ && operation == "push"@ {
            with(TransferOptions { sync: true, ..scan.options })
        } else if arg == "-n"@ && operation == "push"@ {
            with(TransferOptions { dry_run: true, ..scan.options })
        } else if arg == "-q"@ {
            with(TransferOptions { quiet: true, ..scan.options })
        } else if arg == "-Z"@ {
            Err(no_compression(operation))
        } else if arg == "-z"@ {
            if index + 1 >= args.len() {
                Err("missing compression algorithm"@)
            } else {
                Err(no_compression(operation))
            }
        } else if dashed(arg) {
            Err("unsupported "@ + operation + " option: "@ + arg)
        } else {
            transfer_scan(
                args,
                operation,
                index + 1,
                Transfer { paths: scan.paths.push(arg), ..scan },
            )
        }
    }
}

/// The options of a transfer that asks for nothing special.
pub open spec fn plain_options() -> TransferOptions {
    TransferOptions { archive: false, dry_run: false, quiet: false, sync: false }
}

/// What the arguments of a transfer ask for.
pub open spec fn transfer_asked(args: Seq<Seq<char>>, operation: Seq<char>) -> Result<
    Transfer,
    Seq<char>,
> {
    transfer_scan(args, operation, 1, Transfer { options: plain_options(), paths: seq![] })
}

/// Reads the arguments of a transfer.
#[verifier::loop_isolation(false)]
pub fn transfer_paths(args: &[String], operation: &str) -> (request: Result<
    TransferRequest,
    String,
>)
    ensures
        match transfer_asked(texts(args@), operation@) {
            Ok(asked) => request is Ok && request->Ok_0@ == asked,
            Err(error) => complains(request, error),
        },
{
    let ghost all = texts(args@);
    let mut options = TransferOptions {
        archive: false,
        dry_run: false,
        quiet: false,
        sync: false,
    };
    let mut paths: Vec<String> = Vec::new();
    let total: usize = args.len();
    let mut index: usize = 1;
    assert(texts(paths@) =~= seq![]);
    while index < args.len()
        invariant
            index >= 1,
            total == args@.len(),
            all == texts(args@),
            transfer_asked(all, operation@) == transfer_scan(
                all,
                operation@,
                index as int,
                Transfer { options, paths: texts(paths@) },
            ),
        decreases args@.len() + 1 - index,
    {
        let arg: &str = args[index].as_str();
        assert(all[index as int] == arg@);
        if same_text(arg, "-a") && same_text(operation, "pull") {
            options.archive = true;
        } else if same_text(arg, "--sync") && same_text(operation, "push") {
            options.sync = true;
        } else if same_text(arg, "-n") && same_text(operation, "push") {
            options.dry_run = true;
        } else if same_text(arg, "-q") {
            options.quiet = true;
        } else if same_text(arg, "-Z") || same_text(arg, "-z") {
            proof {
                reveal_strlit("-Z");
                reveal_strlit("-z");
                assert("-Z"@[1] != "-z"@[1]);
            }
            if same_text(arg, "-z") && index + 1 >= args.len() {
                return Err(copy_text("missing compression algorithm"));
            }
            let mut error: String = copy_text(operation);
            append(
                &mut error,
                " compression options are not supported by the bundled adb client",
            );
            return Err(error);
        } else if begins_with(arg, '-') {
            let mut error: String = copy_text("unsupported ");
            append(&mut error, operation);
            append(&mut error, " option: ");
            append(&mut error, arg);
            return Err(error);
        } else {
            let ghost before = texts(paths@);
            paths.push(copy_text(arg));
            assert(texts(paths@) =~= before.push(arg@));
        }
        index = index + 1;
    }
    Ok(TransferRequest { options, paths })
}

/// A request about forwarding rules.
#[derive(Debug, PartialEq, Eq)]
pub enum ForwardRequest<T> {
    /// Add a rule from a host endpoint to a device endpoint.
    Add(T, T),
    /// List the rules.
    List,
    /// Remove the rule on a host endpoint.
    Remove(T),
    /// Remove every rule.
    RemoveAll,
}

/// What a request about forwarding rules says.
pub open spec fn forward_view(request: Option<ForwardRequest<&str>>) -> Option<
    ForwardRequest<Seq<char>>,
> {
    match request {
        None => None,
        Some(ForwardRequest::Add(local, remote)) => Some(ForwardRequest::Add(local@, remote@)),
        Some(ForwardRequest::List) => Some(ForwardRequest::List),
        Some(ForwardRequest::Remove(local)) => Some(ForwardRequest::Remove(local@)),
        Some(ForwardRequest::RemoveAll) => Some(ForwardRequest::RemoveAll),
    }
}

/// How forwarding rules are asked for.
pub open spec fn forward_usage() -> Seq<char> {
    "usage: adb forward [--list|--remove LOCAL|--remove-all|LOCAL REMOTE]"@
}

/// What arguments ask about forwarding rules; nothing where they name another
/// command.
pub open spec fn forward_asked(args: Seq<Seq<char>>) -> Result<
    Option<ForwardRequest<Seq<char>>>,
    Seq<char>,
> {
    if args.len() == 0 || args[0] != "forward"@ {
        Ok(None)
    } else if args.len() == 2 && args[1] == "--list"@ {
        Ok(Some(ForwardRequest::List))
    } else if args.len() == 3 && args[1] == "--remove"@ {
        Ok(Some(ForwardRequest::Remove(args[2])))
    } else if args.len() == 2 && args[1] == "--remove-all"@ {
        Ok(Some(ForwardRequest::RemoveAll))
    } else if args.len() == 3 && !dashed(args[1]) {
        Ok(Some(ForwardRequest::Add(args[1], args[2])))
    } else {
        Err(forward_usage())
    }
}

/// Reads arguments about forwarding rules.
pub fn parse_forward_request(args: &[String]) -> (request: Result<
    Option<ForwardRequest<&str>>,
    String,
>)
    ensures
        match forward_asked(texts(args@)) {
            Ok(asked) => request is Ok && forward_view(request->Ok_0) == asked,
            Err(error) => complains(request, error),
        },
{
    if args.len() == 0 || !same_text(&args[0], "forward") {
        return Ok(None);
    }
    if args.len() == 2 && same_text(&args[1], "--list") {
        return Ok(Some(ForwardRequest::List));
    }
    if args.len() == 3 && same_text(&args[1], "--remove") {
        return Ok(Some(ForwardRequest::Remove(args[2].as_str())));
    }
    if args.len() == 2 && same_text(&args[1], "--remove-all") {
        return Ok(Some(ForwardRequest::RemoveAll));
    }
    if args.len() == 3 && !begins_with(&args[1], '-') {
        return Ok(Some(ForwardRequest::Add(args[1].as_str(), args[2].as_str())));
    }
    Err(copy_text("usage: adb forward [--list|--remove LOCAL|--remove-all|LOCAL REMOTE]"))
}

/// A host endpoint that looks like an option is never taken for an addition.
pub proof fn options_are_not_additions(args: Seq<Seq<char>>)
    requires
        args.len() == 3,
        args[0] == "forward"@,
        dashed(args[1]),
    ensures
        !(forward_asked(args) matches Ok(Some(ForwardRequest::Add(_, _)))),
{
}

/// A request to bring partitions up to date.
#[derive(Debug)]
pub struct SyncRequest {
    /// Only print what would be done.
    pub list_only: bool,
    /// The one partition, or all.
    pub partition: Option<String>,
}

/// What a request to bring partitions up to date says.
#[verifier::ext_equal]
pub ghost struct Synced {
    /// Only print what would be done.
    pub list_only: bool,
    /// The one partition, or all.
    pub partition: Option<Seq<char>>,
}

impl SyncRequest {
    /// What the request says.
    pub open spec fn view(&self) -> Synced {
        Synced { list_only: self.list_only, partition: optional_text(self.partition) }
    }
}

/// Reads the arguments of a synchronisation from a place on.
pub open spec fn sync_scan(args: Seq<Seq<char>>, index: int, scan: Synced) -> Result<
    Synced,
    Seq<char>,
>
    decreases args.len() - index,
{
    if index >= args.len() {
        Ok(scan)
    } else {
        let arg = args[index];
        if arg == "-l"@ {
            sync_scan(args, index + 1, Synced { list_only: true, ..scan })
        } else if arg == "-Z"@ {
            Err("sync compression is not supported by the bundled adb client"@)
        } else if arg == "-z"@ {
            if index + 1 >= args.len() {
                Err("missing compression algorithm"@)
            } else {
                Err("sync compression is not supported by the bundled adb client"@)
            }
        } else if dashed(arg) {
            Err("unsupported sync option: "@ + arg)
        } else if scan.partition is Some {
            Err("sync accepts at most one partition"@)
        } else {
            sync_scan(args, index + 1, Synced { partition: Some(arg), ..scan })
        }
    }
}

/// What the arguments of a synchronisation ask for.
pub open spec fn sync_asked(args: Seq<Seq<char>>) -> Result<Synced, Seq<char>> {
    sync_scan(args, 1, Synced { list_only: false, partition: None })
}

/// Reads the arguments of a synchronisation.
#[verifier::loop_isolation(false)]
pub fn parse_sync_request(args: &[String]) -> (request: Result<SyncRequest, String>)
    ensures
        match sync_asked(texts(args@)) {
            Ok(asked) => request is Ok && request->Ok_0@ == asked,
            Err(error) => complains(request, error),
        },
{
    let ghost all = texts(args@);
    let mut list_only = false;
    let mut partition: Option<String> = None;
    let total: usize = args.len();
    let mut index: usize = 1;
    while index < args.len()
        invariant
            index >= 1,
            total == args@.len(),
            all == texts(args@),
            sync_asked(all) == sync_scan(
                all,
                index as int,
                Synced { list_only, partition: optional_text(partition) },
            ),
        decreases args@.len() + 1 - index,
    {
        let arg: &str = args[index].as_str();
        assert(all[index as int] == arg@);
        if same_text(arg, "-l") {
            list_only = true;
        } else if same_text(arg, "-Z") {
            return Err(copy_text("sync compression is not supported by the bundled adb client"));
        } else if same_text(arg, "-z") {
            if index + 1 >= args.len() {
                return Err(copy_text("missing compression algorithm"));
            }
            return Err(copy_text("sync compression is not supported by the bundled adb client"));
        } else if begins_with(arg, '-') {
            let mut error: String = copy_text("unsupported sync option: ");
            append(&mut error, arg);
            return Err(error);
        } else {
            if partition.is_some() {
                return Err(copy_text("sync accepts at most one partition"));
            }
            partition = Some(copy_text(arg));
        }
        index = index + 1;
    }
    Ok(SyncRequest { list_only, partition })
}

/// The partitions that can be brought up to date.
pub open spec fn partitions() -> Seq<Seq<char>> {
    seq![
        "data"@,
        "odm"@,
        "oem"@,
        "product"@,
        "system"@,
        "system_ext"@,
        "vendor"@,
    ]
}

/// The partitions that a request names.
pub open spec fn chosen_partitions(partition: Option<Seq<char>>) -> Result<
    Seq<Seq<char>>,
    Seq<char>,
> {
    match partition {
        None => Ok(partitions()),
        Some(name) => if name == "all"@ {
            Ok(partitions())
        } else if partitions().contains(name) {
            Ok(seq![name])
        } else {
            Err("unsupported sync partition: "@ + name)
        },
    }
}

/// Lists the partitions.
fn all_partitions() -> (names: Vec<String>)
    ensures
        texts(names@) == partitions(),
{
    let mut names: Vec<String> = Vec::new();
    names.push(copy_text("data"));
    names.push(copy_text("odm"));
    names.push(copy_text("oem"));
    names.push(copy_text("product"));
    names.push(copy_text("system"));
    names.push(copy_text("system_ext"));
    names.push(copy_text("vendor"));
    assert(texts(names@) =~= partitions());
    names
}

/// Lists the partitions that a request names.
#[verifier::loop_isolation(false)]
pub fn choose_partitions(partition: &Option<String>) -> (names: Result<Vec<String>, String>)
    ensures
        match chosen_partitions(optional_text(*partition)) {
            Ok(chosen) => names is Ok && texts(names->Ok_0@) == chosen,
            Err(error) => complains(names, error),
        },
{
    let names: Vec<String> = all_partitions();
    match partition {
        None => Ok(names),
        Some(name) => {
            if same_text(name, "all") {
                return Ok(names);
            }
            let mut i: usize = 0;
            while i < names.len()
                invariant
                    i <= names@.len(),
                    texts(names@) == partitions(),
                    forall|j: int| 0 <= j < i ==> partitions()[j] != name@,
                decreases names@.len() - i,
            {
                assert(texts(names@)[i as int] == names@[i as int]@);
                if same_text(&names[i], name) {
                    assert(partitions().contains(name@)) by {
                        assert(partitions()[i as int] == name@);
                    }
                    let mut one: Vec<String> = Vec::new();
                    one.push(copy_text(name));
                    assert(texts(one@) =~= seq![name@]);
                    return Ok(one);
                }
                i = i + 1;
            }
            let mut error: String = copy_text("unsupported sync partition: ");
            append(&mut error, name);
            Err(error)
        },
    }
}

/// Whether an argument in front of a shell command only asks for a kind of
/// terminal.
pub open spec fn terminal_option(arg: Seq<char>) -> bool {
    arg == "-T"@ || arg == "-t"@ || arg == "-tt"@ || arg == "-x"@ || arg == "--"@ || arg == "-n"@
}

/// The place of the first argument from a place on that is no terminal option.
pub open spec fn command_start(args: Seq<Seq<char>>, index: int) -> int
    decreases args.len() - index,
{
    if index < args.len() && terminal_option(args[index]) {
        command_start(args, index + 1)
    } else {
        index
    }
}

/// Finds the first argument from a place on that is no terminal option.
pub fn find_command(args: &[String], from: usize) -> (start: usize)
    requires
        from <= args@.len(),
    ensures
        start == command_start(texts(args@), from as int),
        start <= args@.len(),
{
    let ghost all = texts(args@);
    let mut index: usize = from;
    while index < args.len()
        invariant
            index <= args@.len(),
            all == texts(args@),
            command_start(all, from as int) == command_start(all, index as int),
        decreases args@.len() - index,
    {
        let arg: &str = args[index].as_str();
        assert(all[index as int] == arg@);
        if !(same_text(arg, "-T") || same_text(arg, "-t") || same_text(arg, "-tt") || same_text(
            arg,
            "-x",
        ) || same_text(arg, "--") || same_text(arg, "-n")) {
            return index;
        }
        index = index + 1;
    }
    index
}

/// Of the arguments of a transfer each that begins with a dash is an option, and all
/// others are its paths, in their order. An option counts wherever it stands. A transfer
/// is refused exactly where an option is not one that its operation has.
pub proof fn options_and_paths_are_told_apart(args: Seq<Seq<char>>, operation: Seq<char>)
    requires
        args.len() > 0,
    ensures
        ({
            let asked = transfer_asked(args, operation);
            let rest = args.skip(1);
            let pull = operation == "pull"@;
            let push = operation == "push"@;
            let allowed = forall|i: int|
                0 <= i < rest.len() && dashed(#[trigger] rest[i]) ==> rest[i] == "-q"@ || (pull
                    && rest[i] == "-a"@) || (push && (rest[i] == "--sync"@ || rest[i] == "-n"@));
            &&& asked is Ok <==> allowed
            &&& asked matches Ok(request) ==> {
                &&& request.paths == rest.filter(|arg: Seq<char>| !dashed(arg))
                &&& request.options.quiet == rest.contains("-q"@)
                &&& request.options.archive == (pull && rest.contains("-a"@))
                &&& request.options.sync == (push && rest.contains("--sync"@))
                &&& request.options.dry_run == (push && rest.contains("-n"@))
            }
        }),
{
    let rest = args.skip(1);
    let start = Transfer { options: plain_options(), paths: seq![] };
    let read = rest.take(0);
    assert(read =~= seq![]);
    reveal(Seq::filter);
    assert(read.filter(|arg: Seq<char>| !dashed(arg)) =~= seq![]);
    lemma_transfer_scan(args, operation, 0, start);
}

/// Whether an argument is a path or an option of an operation.
spec fn transfer_arg(arg: Seq<char>, operation: Seq<char>) -> bool {
    dashed(arg) ==> arg == "-q"@ || (operation == "pull"@ && arg == "-a"@) || (operation == "push"@
        && (arg == "--sync"@ || arg == "-n"@))
}

/// What the scan of the arguments of a transfer finds.
proof fn lemma_transfer_scan(
    args: Seq<Seq<char>>,
    operation: Seq<char>,
    n: int,
    scan: Transfer,
)
    requires
        args.len() > 0,
        0 <= n < args.len(),
        ({
            let read = args.skip(1).take(n);
            &&& forall|i: int| 0 <= i < n ==> transfer_arg(#[trigger] read[i], operation)
            &&& scan.paths == read.filter(|arg: Seq<char>| !dashed(arg))
            &&& scan.options.quiet == read.contains("-q"@)
            &&& scan.options.archive == (operation == "pull"@ && read.contains("-a"@))
            &&& scan.options.sync == (operation == "push"@ && read.contains("--sync"@))
            &&& scan.options.dry_run == (operation == "push"@ && read.contains("-n"@))
        }),
    ensures
        ({
            let asked = transfer_scan(args, operation, n + 1, scan);
            let rest = args.skip(1);
            &&& asked is Ok <==> forall|i: int|
                0 <= i < rest.len() ==> transfer_arg(#[trigger] rest[i], operation)
            &&& asked matches Ok(request) ==> {
                &&& request.paths == rest.filter(|arg: Seq<char>| !dashed(arg))
                &&& request.options.quiet == rest.contains("-q"@)
                &&& request.options.archive == (operation == "pull"@ && rest.contains("-a"@))
                &&& request.options.sync == (operation == "push"@ && rest.contains("--sync"@))
                &&& request.options.dry_run == (operation == "push"@ && rest.contains("-n"@))
            }
        }),
    decreases args.len() - n,
{
    reveal_strlit("-a");
    reveal_strlit("-q");
    reveal_strlit("-n");
    reveal_strlit("-Z");
    reveal_strlit("-z");
    reveal_strlit("--sync");
    reveal_strlit("pull");
    reveal_strlit("push");
    assert("pull"@[2] == 'l' && "push"@[2] == 's');
    assert("-a"@[1] == 'a' && "-q"@[1] == 'q' && "-n"@[1] == 'n' && "-Z"@[1] == 'Z' && "-z"@[1]
        == 'z');
    let rest = args.skip(1);
    let read = rest.take(n);
    if n + 1 >= args.len() {
        assert(read =~= rest);
    } else {
        let arg = args[n + 1];
        assert(rest[n] == arg);
        let more = rest.take(n + 1);
        assert(more =~= read.push(arg));
        let kept = |arg: Seq<char>| !dashed(arg);
        reveal(Seq::filter);
        assert(more.drop_last() =~= read);
        assert(more.filter(kept) == if kept(arg) {
            read.filter(kept).push(arg)
        } else {
            read.filter(kept)
        });
        assert forall|word: Seq<char>| more.contains(word) == (read.contains(word) || word
            == arg) by {
            if read.contains(word) {
                let i = choose|i: int| 0 <= i < read.len() && read[i] == word;
                assert(more[i] == word);
            }
            if word == arg {
                assert(more[n] == word);
            }
            if more.contains(word) {
                let i = choose|i: int| 0 <= i < more.len() && more[i] == word;
                if i < n {
                    assert(read[i] == word);
                }
            }
        }
        if transfer_arg(arg, operation) {
            let options = scan.options;
            let next = if !dashed(arg) {
                Transfer { paths: scan.paths.push(arg), ..scan }
            } else if arg == "-q"@ {
                Transfer { options: TransferOptions { quiet: true, ..options }, ..scan }
            } else if arg == "-a"@ {
                Transfer { options: TransferOptions { archive: true, ..options }, ..scan }
            } else if arg == "--sync"@ {
                Transfer { options: TransferOptions { sync: true, ..options }, ..scan }
            } else {
                Transfer { options: TransferOptions { dry_run: true, ..options }, ..scan }
            };
            assert forall|i: int| 0 <= i < n + 1 implies transfer_arg(
                #[trigger] more[i],
                operation,
            ) by {
                if i < n {
                    assert(more[i] == read[i]);
                }
            }
            assert(transfer_scan(args, operation, n + 1, scan) == transfer_scan(
                args,
                operation,
                n + 2,
                next,
            ));
            lemma_transfer_scan(args, operation, n + 1, next);
        } else {
            assert(transfer_scan(args, operation, n + 1, scan) is Err);
            assert(!transfer_arg(rest[n], operation));
        }
    }
}

/// A request to forward a port names the end on the host first; the options list the
/// rules or remove them. Anything else that begins with the command is refused.
pub proof fn forwards_are_understood(local: Seq<char>, remote: Seq<char>, args: Seq<Seq<char>>)
    ensures
        !dashed(local) ==> forward_asked(seq!["forward"@, local, remote]) == Ok::<
            Option<ForwardRequest<Seq<char>>>,
            Seq<char>,
        >(Some(ForwardRequest::Add(local, remote))),
        forward_asked(seq!["forward"@, "--remove"@, local]) == Ok::<
            Option<ForwardRequest<Seq<char>>>,
            Seq<char>,
        >(Some(ForwardRequest::Remove(local))),
        forward_asked(seq!["forward"@, "--list"@]) == Ok::<
            Option<ForwardRequest<Seq<char>>>,
            Seq<char>,
        >(Some(ForwardRequest::List)),
        forward_asked(seq!["forward"@, "--remove-all"@]) == Ok::<
            Option<ForwardRequest<Seq<char>>>,
            Seq<char>,
        >(Some(ForwardRequest::RemoveAll)),
        forward_asked(args) == Ok::<Option<ForwardRequest<Seq<char>>>, Seq<char>>(None)
            <==> args.len() == 0 || args[0] != "forward"@,
        args.len() > 0 && args[0] == "forward"@ && (args.len() == 1 || args.len() > 3)
            ==> forward_asked(args) is Err,
{
    reveal_strlit("--remove");
    reveal_strlit("--list");
    reveal_strlit("--remove-all");
    assert("--remove-all"@.len() != "--list"@.len());
    assert(seq!["forward"@, "--remove-all"@][1] == "--remove-all"@);
}

/// The options of a terminal in front of a command are passed over, and the command begins
/// at the first argument that is none.
pub proof fn commands_begin_behind_the_options(args: Seq<Seq<char>>, from: int)
    requires
        0 <= from <= args.len(),
    ensures
        ({
            let start = command_start(args, from);
            let options = seq!["-T"@, "-t"@, "-tt"@, "-x"@, "--"@, "-n"@];
            &&& from <= start <= args.len()
            &&& forall|i: int| from <= i < start ==> options.contains(#[trigger] args[i])
            &&& start < args.len() ==> !options.contains(args[start])
        }),
    decreases args.len() - from,
{
    let options = seq!["-T"@, "-t"@, "-tt"@, "-x"@, "--"@, "-n"@];
    assert(options[0] == "-T"@ && options[1] == "-t"@ && options[2] == "-tt"@);
    assert(options[3] == "-x"@ && options[4] == "--"@ && options[5] == "-n"@);
    assert forall|arg: Seq<char>| options.contains(arg) == terminal_option(arg) by {
        if terminal_option(arg) {
            let i: int = if arg == "-T"@ {
                0
            } else if arg == "-t"@ {
                1
            } else if arg == "-tt"@ {
                2
            } else if arg == "-x"@ {
                3
            } else if arg == "--"@ {
                4
            } else {
                5
            };
            assert(options[i] == arg);
        }
    }
    if from < args.len() && terminal_option(args[from]) {
        commands_begin_behind_the_options(args, from + 1);
    }
}

/// The partitions are those of a build, and each can be asked for by its name.
pub proof fn partitions_are_asked_by_name(name: Seq<char>)
    ensures
        chosen_partitions(None) == Ok::<Seq<Seq<char>>, Seq<char>>(
            seq!["data"@, "odm"@, "oem"@, "product"@, "system"@, "system_ext"@, "vendor"@],
        ),
        chosen_partitions(Some("all"@)) == chosen_partitions(None),
        chosen_partitions(None)->Ok_0.contains(name) && name != "all"@ ==> chosen_partitions(
            Some(name),
        ) == Ok::<Seq<Seq<char>>, Seq<char>>(seq![name]),
        !chosen_partitions(None)->Ok_0.contains(name) && name != "all"@ ==> chosen_partitions(
            Some(name),
        ) is Err,
{
}

/// Of the arguments of a synchronisation one names a partition, if any, and the only
/// option makes it a listing, wherever it stands. Anything else is refused.
pub proof fn synchronisations_are_understood(args: Seq<Seq<char>>)
    requires
        args.len() > 0,
    ensures
        ({
            let asked = sync_asked(args);
            let rest = args.skip(1);
            let names = rest.filter(|arg: Seq<char>| !dashed(arg));
            let allowed = forall|i: int|
                0 <= i < rest.len() && dashed(#[trigger] rest[i]) ==> rest[i] == "-l"@;
            &&& asked is Ok <==> allowed && names.len() <= 1
            &&& asked matches Ok(request) ==> {
                &&& request.list_only == rest.contains("-l"@)
                &&& request.partition == if names.len() == 0 {
                    None
                } else {
                    Some(names[0])
                }
            }
        }),
{
    let rest = args.skip(1);
    let read = rest.take(0);
    assert(read =~= seq![]);
    reveal(Seq::filter);
    assert(read.filter(|arg: Seq<char>| !dashed(arg)) =~= seq![]);
    lemma_sync_scan(args, 0, Synced { list_only: false, partition: None });
}

/// What the scan of the arguments of a synchronisation finds.
proof fn lemma_sync_scan(args: Seq<Seq<char>>, n: int, scan: Synced)
    requires
        args.len() > 0,
        0 <= n < args.len(),
        ({
            let read = args.skip(1).take(n);
            let names = read.filter(|arg: Seq<char>| !dashed(arg));
            &&& forall|i: int| 0 <= i < n && dashed(#[trigger] read[i]) ==> read[i] == "-l"@
            &&& names.len() <= 1
            &&& scan.list_only == read.contains("-l"@)
            &&& scan.partition == if names.len() == 0 {
                None
            } else {
                Some(names[0])
            }
        }),
    ensures
        ({
            let asked = sync_scan(args, n + 1, scan);
            let rest = args.skip(1);
            let names = rest.filter(|arg: Seq<char>| !dashed(arg));
            let allowed = forall|i: int|
                0 <= i < rest.len() && dashed(#[trigger] rest[i]) ==> rest[i] == "-l"@;
            &&& asked is Ok <==> allowed && names.len() <= 1
            &&& asked matches Ok(request) ==> {
                &&& request.list_only == rest.contains("-l"@)
                &&& request.partition == if names.len() == 0 {
                    None
                } else {
                    Some(names[0])
                }
            }
        }),
    decreases args.len() - n,
{
    reveal_strlit("-l");
    reveal_strlit("-Z");
    reveal_strlit("-z");
    assert("-l"@[1] == 'l' && "-Z"@[1] == 'Z' && "-z"@[1] == 'z');
    let rest = args.skip(1);
    let read = rest.take(n);
    let kept = |arg: Seq<char>| !dashed(arg);
    if n + 1 >= args.len() {
        assert(read =~= rest);
    } else {
        let arg = args[n + 1];
        assert(rest[n] == arg);
        let more = rest.take(n + 1);
        assert(more =~= read.push(arg));
        reveal(Seq::filter);
        assert(more.drop_last() =~= read);
        assert(more.filter(kept) == if kept(arg) {
            read.filter(kept).push(arg)
        } else {
            read.filter(kept)
        });
        assert(more.contains("-l"@) == (read.contains("-l"@) || arg == "-l"@)) by {
            if read.contains("-l"@) {
                let i = choose|i: int| 0 <= i < read.len() && read[i] == "-l"@;
                assert(more[i] == "-l"@);
            }
            if arg == "-l"@ {
                assert(more[n] == "-l"@);
            }
            if more.contains("-l"@) {
                let i = choose|i: int| 0 <= i < more.len() && more[i] == "-l"@;
                if i < n {
                    assert(read[i] == "-l"@);
                }
            }
        }
        assert forall|i: int| 0 <= i < n + 1 && dashed(#[trigger] more[i]) && (dashed(arg) ==> arg
            == "-l"@) implies more[i] == "-l"@ by {
            if i < n {
                assert(more[i] == read[i]);
            }
        }
        if dashed(arg) && arg != "-l"@ {
            assert(sync_scan(args, n + 1, scan) is Err);
            assert(dashed(rest[n]) && rest[n] != "-l"@);
        } else if arg == "-l"@ {
            lemma_sync_scan(args, n + 1, Synced { list_only: true, ..scan });
        } else if scan.partition is Some {
            lemma_filter_grows(rest, n + 1);
            assert(sync_scan(args, n + 1, scan) is Err);
        } else {
            assert(more.filter(kept)[0] == arg);
            lemma_sync_scan(args, n + 1, Synced { partition: Some(arg), ..scan });
        }
    }
}

/// More arguments hold no fewer names.
proof fn lemma_filter_grows(list: Seq<Seq<char>>, n: int)
    requires
        0 <= n <= list.len(),
    ensures
        list.take(n).filter(|arg: Seq<char>| !dashed(arg)).len() <= list.filter(
            |arg: Seq<char>| !dashed(arg),
        ).len(),
    decreases list.len(),
{
    reveal(Seq::filter);
    if n == list.len() {
        assert(list.take(n) =~= list);
    } else {
        lemma_filter_grows(list.drop_last(), n);
        assert(list.drop_last().take(n) =~= list.take(n));
    }
}

/// A package to install: its options come first, then the user that it is for, then its
/// file. Every option is kept, in order.
pub proof fn installations_are_understood(
    command: Seq<char>,
    flags: Seq<Seq<char>>,
    user: Option<Seq<char>>,
    source: Seq<char>,
)
    requires
        forall|i: int|
            0 <= i < flags.len() ==> (#[trigger] flags[i] == "-r"@ || flags[i] == "-g"@ || flags[i]
                == "-d"@),
        user is Some ==> forall|i: int| 0 <= i < user->0.len() ==> '0' <= #[trigger] user->0[i]
            <= '9',
        source.len() == 0 || source[0] != '-',
        !source.contains('\n'),
        !source.contains('\r'),
        !source.contains('\t'),
    ensures
        ({
            let person = match user {
                Some(user) => seq!["--user"@, user],
                None => seq![],
            };
            let args = seq![command] + flags + person + seq![source];
            &&& install_asked(args) == Ok::<Install, Seq<char>>(Install { flags, user, source })
            &&& install_asked(seq![command] + flags + person) is Err
            &&& install_asked(args.push(source)) is Err
        }),
{
    reveal_strlit("-r");
    reveal_strlit("-g");
    reveal_strlit("-d");
    reveal_strlit("-u");
    reveal_strlit("--user");
    let person = match user {
        Some(user) => seq!["--user"@, user],
        None => seq![],
    };
    let short = seq![command] + flags + person;
    let args = short + seq![source];
    let long = args.push(source);
    let start = InstallScan { flags: seq![], user: None, source: None };
    let n = 1 + flags.len() as int;
    let m = short.len() as int;
    assert(Seq::<Seq<char>>::empty() + flags =~= flags);
    assert forall|list: Seq<Seq<char>>|
        list == short || list == args || list == long implies #[trigger] install_scan(
        list,
        1,
        start,
    ) == install_scan(list, m, InstallScan { flags, user, source: None }) by {
        assert forall|i: int| 0 <= i < flags.len() implies list[1 + i] == flags[i] by {}
        lemma_install_flags(list, 1, flags, start);
        if user is Some {
            assert(list[n] == "--user"@);
            assert(list[n + 1] == user->0);
        }
    }
    let scan = InstallScan { flags, user, source: None };
    let found = InstallScan { flags, user, source: Some(source) };
    assert("-r"@[0] == '-' && "-g"@[0] == '-' && "-d"@[0] == '-' && "-u"@[0] == '-');
    assert("--user"@[0] == '-');
    assert(!install_flag(source) && !user_option(source) && !dashed(source));
    assert(args[m] == source);
    assert(long[m] == source);
    assert(long[m + 1] == source);
    assert(install_scan(short, 1, start) == install_scan(short, m, scan));
    assert(install_scan(args, 1, start) == install_scan(args, m, scan));
    assert(install_scan(long, 1, start) == install_scan(long, m, scan));
    assert(install_scan(args, m, scan) == install_scan(args, m + 1, found));
    assert(install_scan(long, m, scan) == install_scan(long, m + 1, found));
    assert(install_scan(long, m + 1, found) is Err);
}

/// Options are collected in order.
proof fn lemma_install_flags(
    args: Seq<Seq<char>>,
    index: int,
    flags: Seq<Seq<char>>,
    scan: InstallScan,
)
    requires
        0 <= index,
        index + flags.len() <= args.len(),
        forall|i: int| 0 <= i < flags.len() ==> args[index + i] == #[trigger] flags[i],
        forall|i: int| 0 <= i < flags.len() ==> install_flag(#[trigger] flags[i]),
    ensures
        install_scan(args, index, scan) == install_scan(
            args,
            index + flags.len(),
            InstallScan { flags: scan.flags + flags, ..scan },
        ),
    decreases flags.len(),
{
    if flags.len() == 0 {
        assert(scan.flags + flags =~= scan.flags);
    } else {
        let rest = flags.drop_first();
        assert(args[index] == flags[0]);
        assert forall|i: int| 0 <= i < rest.len() implies args[index + 1 + i] == #[trigger] rest[i]
            && install_flag(rest[i]) by {
            assert(rest[i] == flags[i + 1]);
            assert(args[index + (i + 1)] == flags[i + 1]);
        }
        let next = InstallScan { flags: scan.flags.push(flags[0]), ..scan };
        lemma_install_flags(args, index + 1, rest, next);
        assert(next.flags + rest =~= scan.flags + flags);
    }
}

/// A package to remove: whether its data stays, the user that it is for, and its name.
pub proof fn removals_are_understood(
    command: Seq<char>,
    keep: bool,
    user: Option<Seq<char>>,
    package: Seq<char>,
)
    requires
        user is Some ==> forall|i: int| 0 <= i < user->0.len() ==> '0' <= #[trigger] user->0[i]
            <= '9',
        package.len() > 0,
        forall|i: int|
            0 <= i < package.len() ==> '0' <= #[trigger] package[i] <= '9' || 'a' <= package[i]
                <= 'z' || 'A' <= package[i] <= 'Z' || package[i] == '.' || package[i] == '_',
    ensures
        ({
            let kept: Seq<Seq<char>> = if keep {
                seq!["-k"@]
            } else {
                seq![]
            };
            let person = match user {
                Some(user) => seq!["--user"@, user],
                None => seq![],
            };
            let args = seq![command] + kept + person + seq![package];
            &&& uninstall_asked(args) == Ok::<Uninstall, Seq<char>>(
                Uninstall { keep_data: keep, user, package },
            )
            &&& uninstall_asked(seq![command] + kept + person) is Err
            &&& uninstall_asked(args.push(package)) is Err
        }),
{
    reveal_strlit("-k");
    reveal_strlit("-u");
    reveal_strlit("--user");
    let kept: Seq<Seq<char>> = if keep {
        seq!["-k"@]
    } else {
        seq![]
    };
    let person = match user {
        Some(user) => seq!["--user"@, user],
        None => seq![],
    };
    let short = seq![command] + kept + person;
    let args = short + seq![package];
    let long = args.push(package);
    let start = UninstallScan { keep_data: false, user: None, package: None };
    let n = 1 + kept.len() as int;
    let m = short.len() as int;
    assert("-k"@[1] == 'k' && "-u"@[1] == 'u');
    assert forall|list: Seq<Seq<char>>|
        list == short || list == args || list == long implies #[trigger] uninstall_scan(
        list,
        1,
        start,
    ) == uninstall_scan(list, m, UninstallScan { keep_data: keep, user, package: None }) by {
        if keep {
            assert(list[1] == "-k"@);
        }
        assert(uninstall_scan(list, 1, start) == uninstall_scan(
            list,
            n,
            UninstallScan { keep_data: keep, user: None, package: None },
        ));
        if user is Some {
            assert(list[n] == "--user"@);
            assert(list[n + 1] == user->0);
        }
    }
    let scan = UninstallScan { keep_data: keep, user, package: None };
    let found = UninstallScan { keep_data: keep, user, package: Some(package) };
    assert("-k"@[0] == '-' && "-u"@[0] == '-' && "--user"@[0] == '-');
    assert('0' <= package[0] <= '9' || 'a' <= package[0] <= 'z' || 'A' <= package[0] <= 'Z'
        || package[0] == '.' || package[0] == '_');
    assert(package != "-k"@ && !user_option(package) && !dashed(package));
    assert(args[m] == package);
    assert(long[m] == package);
    assert(long[m + 1] == package);
    assert(package_chars(package));
    assert(uninstall_scan(short, 1, start) == uninstall_scan(short, m, scan));
    assert(uninstall_scan(args, 1, start) == uninstall_scan(args, m, scan));
    assert(uninstall_scan(long, 1, start) == uninstall_scan(long, m, scan));
    assert(uninstall_scan(args, m, scan) == uninstall_scan(args, m + 1, found));
    assert(uninstall_scan(long, m, scan) == uninstall_scan(long, m + 1, found));
    assert(uninstall_scan(long, m + 1, found) is Err);
}

/// An option that is not known is refused, wherever it stands alone.
pub proof fn unknown_options_are_refused(command: Seq<char>, option: Seq<char>, path: Seq<char>)
    requires
        option.len() > 0,
        option[0] == '-',
        option != "-r"@,
        option != "-g"@,
        option != "-d"@,
        option != "-k"@,
        option != "-u"@,
        option != "--user"@,
    ensures
        install_asked(seq![command, option, path]) is Err,
        uninstall_asked(seq![command, option, path]) is Err,
{
    assert(seq![command, option, path][1] == option);
}

/// An option of a transfer that is not known is refused by its name, and one that asks
/// for compression because there is none.
pub proof fn options_of_transfers_are_refused(
    command: Seq<char>,
    operation: Seq<char>,
    option: Seq<char>,
    rest: Seq<Seq<char>>,
)
    requires
        option.len() > 0,
        option[0] == '-',
        option != "-q"@,
        option != "-a"@,
        option != "--sync"@,
        option != "-n"@,
    ensures
        transfer_asked(seq![command, option] + rest, operation) == Err::<Transfer, Seq<char>>(
            if option == "-Z"@ || option == "-z"@ && rest.len() > 0 {
                operation + " compression options are not supported by the bundled adb client"@
            } else if option == "-z"@ {
                "missing compression algorithm"@
            } else {
                "unsupported "@ + operation + " option: "@ + option
            },
        ),
{
    reveal_strlit("-Z");
    reveal_strlit("-z");
    assert("-Z"@.len() == 2);
    assert("-z"@.len() == 2);
    assert("-Z"@[1] == 'Z');
    assert("-z"@[1] == 'z');
    assert((seq![command, option] + rest)[1] == option);
}

/// An option of a synchronisation that is not known is refused by its name, one that
/// asks for compression because there is none, and a second partition because one is
/// taken.
pub proof fn options_of_synchronisations_are_refused(
    command: Seq<char>,
    option: Seq<char>,
    rest: Seq<Seq<char>>,
    first: Seq<char>,
    second: Seq<char>,
)
    requires
        option.len() > 0,
        option[0] == '-',
        option != "-l"@,
        first.len() == 0 || first[0] != '-',
        second.len() == 0 || second[0] != '-',
    ensures
        sync_asked(seq![command, option] + rest) == Err::<Synced, Seq<char>>(
            if option == "-Z"@ || option == "-z"@ && rest.len() > 0 {
                "sync compression is not supported by the bundled adb client"@
            } else if option == "-z"@ {
                "missing compression algorithm"@
            } else {
                "unsupported sync option: "@ + option
            },
        ),
        sync_asked(seq![command, first, second]) == Err::<Synced, Seq<char>>(
            "sync accepts at most one partition"@,
        ),
        !partitions().contains(first) && first != "all"@ ==> chosen_partitions(Some(first)) == Err::<
            Seq<Seq<char>>,
            Seq<char>,
        >("unsupported sync partition: "@ + first),
{
    reveal_strlit("-Z");
    reveal_strlit("-z");
    reveal_strlit("-l");
    assert("-Z"@.len() == 2);
    assert("-z"@.len() == 2);
    assert("-l"@.len() == 2);
    assert("-Z"@[1] == 'Z');
    assert("-z"@[1] == 'z');
    assert("-l"@[1] == 'l');
    assert((seq![command, option] + rest)[1] == option);
    let args = seq![command, first, second];
    assert(args[1] == first && args[2] == second);
    assert(sync_scan(args, 2, Synced { list_only: false, partition: Some(first) }) is Err);
}

/// What is wrong with a request for a package is named: an option that is not known, a
/// user or a package that is missing, or a package too many.
pub proof fn wrong_package_requests_are_named(
    command: Seq<char>,
    option: Seq<char>,
    user: Seq<char>,
    rest: Seq<Seq<char>>,
    first: Seq<char>,
    second: Seq<char>,
)
    requires
        option.len() > 0,
        option[0] == '-',
        option != "-r"@,
        option != "-g"@,
        option != "-d"@,
        option != "-k"@,
        option != "-u"@,
        option != "--user"@,
        user == "-u"@ || user == "--user"@,
        first.len() == 0 || first[0] != '-',
        second.len() == 0 || second[0] != '-',
    ensures
        install_asked(seq![command, option] + rest) == Err::<Install, Seq<char>>(
            "unsupported install option"@,
        ),
        install_asked(seq![command, user]) == Err::<Install, Seq<char>>("missing install user"@),
        install_asked(seq![command]) == Err::<Install, Seq<char>>("missing APK path"@),
        install_asked(seq![command, first, second]) == Err::<Install, Seq<char>>(
            "install accepts exactly one APK path"@,
        ),
        uninstall_asked(seq![command, option] + rest) == Err::<Uninstall, Seq<char>>(
            "unsupported uninstall option"@,
        ),
        uninstall_asked(seq![command, user]) == Err::<Uninstall, Seq<char>>(
            "missing uninstall user"@,
        ),
        uninstall_asked(seq![command]) == Err::<Uninstall, Seq<char>>("missing package name"@),
        uninstall_asked(seq![command, first, second]) == Err::<Uninstall, Seq<char>>(
            "uninstall accepts exactly one package name"@,
        ),
        first.contains('\n') ==> install_asked(seq![command, first]) == Err::<Install, Seq<char>>(
            "invalid install request"@,
        ),
        first.len() > 0 && !package_chars(first) ==> uninstall_asked(seq![command, first]) == Err::<
            Uninstall,
            Seq<char>,
        >("invalid uninstall request"@),
{
    reveal_strlit("-r");
    reveal_strlit("-g");
    reveal_strlit("-d");
    reveal_strlit("-k");
    reveal_strlit("-u");
    reveal_strlit("--user");
    assert("-r"@.len() == 2);
    assert("-g"@.len() == 2);
    assert("-d"@.len() == 2);
    assert("-k"@.len() == 2);
    assert("-u"@.len() == 2);
    assert("--user"@.len() == 6);
    assert("-r"@[1] == 'r');
    assert("-g"@[1] == 'g');
    assert("-d"@[1] == 'd');
    assert("-k"@[1] == 'k');
    assert("-u"@[1] == 'u');
    assert((seq![command, option] + rest)[1] == option);
    let plain = InstallScan { flags: seq![], user: None, source: None };
    let bare = UninstallScan { keep_data: false, user: None, package: None };
    let found = InstallScan { source: Some(first), ..plain };
    let named = UninstallScan { package: Some(first), ..bare };
    let one = seq![command, first];
    let two = seq![command, first, second];
    assert(seq![command, user][1] == user);
    assert("-u"@[0] == '-' && "--user"@[0] == '-' && "-k"@[0] == '-');
    assert("-r"@[0] == '-' && "-g"@[0] == '-' && "-d"@[0] == '-');
    assert(one[1] == first && two[1] == first && two[2] == second);
    assert(install_scan(two, 1, plain) == install_scan(two, 2, found));
    assert(install_scan(two, 2, found) is Err);
    assert(uninstall_scan(two, 1, bare) == uninstall_scan(two, 2, named));
    assert(uninstall_scan(two, 2, named) is Err);
    assert(install_scan(one, 1, plain) == install_scan(one, 2, found));
    assert(uninstall_scan(one, 1, bare) == uninstall_scan(one, 2, named));
    assert(install_scan(seq![command], 1, plain) == Ok::<InstallScan, Seq<char>>(plain));
    assert(uninstall_scan(seq![command], 1, bare) == Ok::<UninstallScan, Seq<char>>(bare));
    assert(install_scan(one, 2, found) == Ok::<InstallScan, Seq<char>>(found));
    assert(uninstall_scan(one, 2, named) == Ok::<UninstallScan, Seq<char>>(named));
}

/// A rule that is not written in one of the four ways is answered by how to write it.
pub proof fn other_forwards_are_answered_by_their_usage(args: Seq<Seq<char>>)
    requires
        args.len() != 2,
        args.len() != 3,
        args.len() > 0,
        args[0] == "forward"@,
    ensures
        forward_asked(args) == Err::<Option<ForwardRequest<Seq<char>>>, Seq<char>>(
            "usage: adb forward [--list|--remove LOCAL|--remove-all|LOCAL REMOTE]"@,
        ),
{
}

} // verus!
