//! Installing and removing packages over TCP and through a server.

use crate::commands::{quoted_user, write_quoted_user};
use crate::job::{package_path, reports_success, succeeded};
use crate::requests::{Install, InstallRequest, Uninstall, UninstallRequest};
use crate::text::{
    chars_of, complains, copy_text, decode_lossy, join, join_from, lines, lossy, plus, string_of,
    texts, trim, trimmed,
};
use crate::transfer::{shell_quote, shell_word};
use vstd::prelude::*;

verus! {

/// How a package is installed.
#[derive(Clone, Copy, Debug, PartialEq, Eq, Structural)]
pub enum Installer {
    /// On a device over TCP: the output of the package manager tells success, and
    /// a failed upload is removed as well.
    Wireless,
    /// Through a server: the exit status of the package manager tells success.
    Server,
}

/// What an installation waits for.
#[derive(Debug)]
pub enum PackageWait<T> {
    /// The package file is uploaded.
    Uploading,
    /// The package manager runs.
    Installing,
    /// The package file is removed; the outcome is known.
    Cleaning(Result<(), T>),
    /// The installation has ended.
    Ended,
}

/// What an installation asks for.
#[derive(Debug)]
pub enum PackageAction<T> {
    /// Upload a file of the host.
    Upload {
        /// The path on the host.
        source: T,
        /// The path on the device.
        remote: T,
    },
    /// Run a command in the shell.
    Shell(T),
    /// The installation has ended.
    Finish(Result<(), T>),
}

/// What came of an action.
#[derive(Debug)]
pub enum PackageEvent<T, B> {
    /// It is done.
    Done,
    /// The command put this out.
    Output(B),
    /// It failed, for this reason.
    Failed(T),
}

/// The commands of an installation.
#[verifier::ext_equal]
pub ghost struct PackageCommands {
    /// How the package is installed.
    pub installer: Installer,
    /// The command that installs the package.
    pub install: Seq<char>,
    /// The command that removes the package file.
    pub clean: Seq<char>,
}

/// What is waited for, as plain values.
pub open spec fn package_wait_view(wait: PackageWait<String>) -> PackageWait<Seq<char>> {
    match wait {
        PackageWait::Uploading => PackageWait::Uploading,
        PackageWait::Installing => PackageWait::Installing,
        PackageWait::Cleaning(Ok(())) => PackageWait::Cleaning(Ok(())),
        PackageWait::Cleaning(Err(error)) => PackageWait::Cleaning(Err(error@)),
        PackageWait::Ended => PackageWait::Ended,
    }
}

/// What is asked for, as plain values.
pub open spec fn package_action_view(action: PackageAction<String>) -> PackageAction<Seq<char>> {
    match action {
        PackageAction::Upload { source, remote } => PackageAction::Upload {
            source: source@,
            remote: remote@,
        },
        PackageAction::Shell(command) => PackageAction::Shell(command@),
        PackageAction::Finish(Ok(())) => PackageAction::Finish(Ok(())),
        PackageAction::Finish(Err(error)) => PackageAction::Finish(Err(error@)),
    }
}

/// What came of an action, as plain values.
pub open spec fn package_event_view(event: PackageEvent<String, Vec<u8>>) -> PackageEvent<
    Seq<char>,
    Seq<u8>,
> {
    match event {
        PackageEvent::Done => PackageEvent::Done,
        PackageEvent::Output(bytes) => PackageEvent::Output(bytes@),
        PackageEvent::Failed(error) => PackageEvent::Failed(error@),
    }
}

/// The verdict of the package manager, from its output: what is no success is
/// told as it was put out.
pub open spec fn output_verdict(output: Seq<u8>) -> Result<(), Seq<char>> {
    if reports_success(output) {
        Ok(())
    } else {
        Err(trim(lossy(output)))
    }
}

/// Reads the verdict of the package manager.
pub fn judge_output(output: &[u8]) -> (verdict: Result<(), String>)
    ensures
        match output_verdict(output@) {
            Ok(()) => verdict is Ok,
            Err(error) => complains(verdict, error),
        },
{
    if succeeded(output) {
        Ok(())
    } else {
        let text: String = decode_lossy(output);
        let chars: Vec<char> = chars_of(&text);
        Err(string_of(trimmed(&chars)))
    }
}

/// The option that names a user to the package manager.
pub open spec fn plain_user(user: Option<Seq<char>>) -> Seq<char> {
    match user {
        Some(user) => " --user "@ + user,
        None => seq![],
    }
}

/// Where a package file is put for a server, from a stamp that no other
/// installation has.
pub open spec fn server_package_path(stamp: Seq<char>) -> Seq<char> {
    "/data/local/tmp/mab-server-install-"@ + stamp + ".apk"@
}

/// Where a package file is put.
pub open spec fn remote_path(installer: Installer, stamp: Seq<char>) -> Seq<char> {
    match installer {
        Installer::Wireless => package_path(stamp),
        Installer::Server => server_package_path(stamp),
    }
}

/// The commands that install a package file and remove it again.
pub open spec fn package_commands(
    installer: Installer,
    request: Install,
    remote: Seq<char>,
) -> PackageCommands {
    let flags = join(request.flags, seq![' ']);
    match installer {
        Installer::Wireless => PackageCommands {
            installer,
            install: "pm install "@ + flags + plain_user(request.user) + " "@ + remote,
            clean: "rm -f "@ + remote,
        },
        Installer::Server => PackageCommands {
            installer,
            install: "pm install "@ + flags + quoted_user(request.user) + " "@ + shell_word(
                remote,
            ),
            clean: "rm -f -- "@ + shell_word(remote),
        },
    }
}

/// Whether an event is one that an installation can get.
pub open spec fn package_fits<T, B, U>(
    installer: Installer,
    wait: PackageWait<U>,
    event: PackageEvent<T, B>,
) -> bool {
    match wait {
        PackageWait::Uploading => event is Done || event is Failed,
        PackageWait::Installing => event is Failed || match installer {
            Installer::Wireless => event is Output,
            Installer::Server => event is Done,
        },
        PackageWait::Cleaning(_) => true,
        PackageWait::Ended => false,
    }
}

/// An installation whose outcome is known, and whose file is to be removed.
pub open spec fn package_cleans(commands: PackageCommands, outcome: Result<(), Seq<char>>) -> (
    PackageWait<Seq<char>>,
    PackageAction<Seq<char>>,
) {
    (PackageWait::Cleaning(outcome), PackageAction::Shell(commands.clean))
}

/// How an installation goes on. Whether the file could be removed does not
/// matter.
pub open spec fn package_next(
    commands: PackageCommands,
    wait: PackageWait<Seq<char>>,
    event: PackageEvent<Seq<char>, Seq<u8>>,
) -> (PackageWait<Seq<char>>, PackageAction<Seq<char>>) {
    match (wait, event) {
        (PackageWait::Uploading, PackageEvent::Failed(error)) => match commands.installer {
            Installer::Wireless => package_cleans(commands, Err(error)),
            Installer::Server => (PackageWait::Ended, PackageAction::Finish(Err(error))),
        },
        (PackageWait::Uploading, _) => (
            PackageWait::Installing,
            PackageAction::Shell(commands.install),
        ),
        (PackageWait::Installing, PackageEvent::Failed(error)) => package_cleans(
            commands,
            Err(error),
        ),
        (PackageWait::Installing, PackageEvent::Output(output)) => package_cleans(
            commands,
            output_verdict(output),
        ),
        (PackageWait::Installing, PackageEvent::Done) => package_cleans(commands, Ok(())),
        (PackageWait::Cleaning(outcome), _) => (
            PackageWait::Ended,
            PackageAction::Finish(outcome),
        ),
        (PackageWait::Ended, _) => (PackageWait::Ended, PackageAction::Finish(Ok(()))),
    }
}

/// The installation of a package.
#[derive(Debug)]
pub struct PackageInstall {
    installer: Installer,
    install: String,
    clean: String,
    wait: PackageWait<String>,
}

impl PackageInstall {
    /// The commands.
    pub closed spec fn commands(&self) -> PackageCommands {
        PackageCommands {
            installer: self.installer,
            install: self.install@,
            clean: self.clean@,
        }
    }

    /// What is waited for.
    pub closed spec fn wait(&self) -> PackageWait<Seq<char>> {
        package_wait_view(self.wait)
    }

    /// Begins an installation, under a stamp that no other installation has.
    pub fn begin(installer: Installer, request: &InstallRequest, stamp: &str) -> (begun: (
        PackageInstall,
        PackageAction<String>,
    ))
        ensures
            ({
                let remote = remote_path(installer, stamp@);
                &&& begun.0.commands() == package_commands(installer, request@, remote)
                &&& begun.0.wait() == PackageWait::<Seq<char>>::Uploading
                &&& package_action_view(begun.1) == (PackageAction::Upload {
                    source: request@.source,
                    remote,
                })
            }),
    {
        assert(texts(request.flags@).skip(0) =~= texts(request.flags@));
        let front: String = plus(copy_text("pm install "), &join_from(&request.flags, 0));
        match installer {
            Installer::Wireless => {
                let remote: String = plus(
                    plus(copy_text("/data/local/tmp/mab-install-"), stamp),
                    ".apk",
                );
                let user: String = match &request.user {
                    Some(user) => plus(copy_text(" --user "), user),
                    None => {
                        let nothing = String::new();
                        assert(nothing@ =~= seq![]);
                        nothing
                    },
                };
                let install: String = plus(plus(plus(front, &user), " "), &remote);
                let clean: String = plus(copy_text("rm -f "), &remote);
                (
                    PackageInstall { installer, install, clean, wait: PackageWait::Uploading },
                    PackageAction::Upload { source: copy_text(&request.source), remote },
                )
            },
            Installer::Server => {
                let remote: String = plus(
                    plus(copy_text("/data/local/tmp/mab-server-install-"), stamp),
                    ".apk",
                );
                let word: String = shell_quote(&remote);
                let install: String = plus(
                    plus(plus(front, &write_quoted_user(&request.user)), " "),
                    &word,
                );
                let clean: String = plus(copy_text("rm -f -- "), &word);
                (
                    PackageInstall { installer, install, clean, wait: PackageWait::Uploading },
                    PackageAction::Upload { source: copy_text(&request.source), remote },
                )
            },
        }
    }

    /// Goes on with the installation.
    pub fn on_event(self, event: PackageEvent<String, Vec<u8>>) -> (next: (
        PackageInstall,
        PackageAction<String>,
    ))
        requires
            package_fits(self.commands().installer, self.wait(), event),
        ensures
            next.0.commands() == self.commands(),
            (next.0.wait(), package_action_view(next.1)) == package_next(
                self.commands(),
                self.wait(),
                package_event_view(event),
            ),
    {
        let PackageInstall { installer, install, clean, wait } = self;
        let (wait, action) = match (wait, event) {
            (PackageWait::Uploading, PackageEvent::Failed(error)) => match installer {
                Installer::Wireless => (
                    PackageWait::Cleaning(Err(error)),
                    PackageAction::Shell(copy_text(&clean)),
                ),
                Installer::Server => (PackageWait::Ended, PackageAction::Finish(Err(error))),
            },
            (PackageWait::Uploading, _) => (
                PackageWait::Installing,
                PackageAction::Shell(copy_text(&install)),
            ),
            (PackageWait::Installing, PackageEvent::Failed(error)) => (
                PackageWait::Cleaning(Err(error)),
                PackageAction::Shell(copy_text(&clean)),
            ),
            (PackageWait::Installing, PackageEvent::Output(output)) => (
                PackageWait::Cleaning(judge_output(&output)),
                PackageAction::Shell(copy_text(&clean)),
            ),
            (PackageWait::Installing, PackageEvent::Done) => (
                PackageWait::Cleaning(Ok(())),
                PackageAction::Shell(copy_text(&clean)),
            ),
            (PackageWait::Cleaning(outcome), _) => (
                PackageWait::Ended,
                PackageAction::Finish(outcome),
            ),
            (PackageWait::Ended, _) => (PackageWait::Ended, PackageAction::Finish(Ok(()))),
        };
        (PackageInstall { installer, install, clean, wait }, action)
    }
}

/// Once a package file is on the device, it is removed before the installation
/// ends, however the installation went.
pub proof fn uploaded_packages_are_removed(
    commands: PackageCommands,
    event: PackageEvent<Seq<char>, Seq<u8>>,
    after: PackageEvent<Seq<char>, Seq<u8>>,
)
    requires
        package_fits(commands.installer, PackageWait::<Seq<char>>::Installing, event),
    ensures
        ({
            let uploaded = package_next(
                commands,
                PackageWait::Uploading,
                PackageEvent::Done,
            );
            let ran = package_next(commands, uploaded.0, event);
            let cleaned = package_next(commands, ran.0, after);
            &&& uploaded == (
                PackageWait::<Seq<char>>::Installing,
                PackageAction::Shell(commands.install),
            )
            &&& ran.0 is Cleaning
            &&& ran.1 == PackageAction::Shell(commands.clean)
            &&& cleaned.0 is Ended
            &&& cleaned.1 is Finish
            &&& event is Failed ==> cleaned.1 == PackageAction::<Seq<char>>::Finish(
                Err(event->Failed_0),
            )
        }),
{
}

/// The command that removes a package on a device over TCP.
pub open spec fn wireless_uninstall(request: Uninstall) -> Seq<char> {
    "pm uninstall "@ + (if request.keep_data {
        "-k "@
    } else {
        seq![]
    }) + (match request.user {
        Some(user) => "--user "@ + user + " "@,
        None => seq![],
    }) + request.package
}

/// Writes the command that removes a package on a device over TCP; its output is
/// judged like that of an installation.
pub fn wireless_uninstall_command(request: &UninstallRequest) -> (command: String)
    ensures
        command@ == wireless_uninstall(request@),
{
    let keep: String = if request.keep_data {
        copy_text("-k ")
    } else {
        let nothing = String::new();
        assert(nothing@ =~= seq![]);
        nothing
    };
    let user: String = match &request.user {
        Some(user) => plus(plus(copy_text("--user "), user), " "),
        None => {
            let nothing = String::new();
            assert(nothing@ =~= seq![]);
            nothing
        },
    };
    plus(plus(plus(copy_text("pm uninstall "), &keep), &user), &request.package)
}

/// Over TCP a package is installed from its place on the device and that place is
/// cleared, both in plain words.
pub proof fn packages_over_tcp_are_installed_in_plain_words(request: Install, stamp: Seq<char>)
    ensures
        ({
            let remote = "/data/local/tmp/mab-install-"@ + stamp + ".apk"@;
            let commands = package_commands(Installer::Wireless, request, remote);
            &&& remote_path(Installer::Wireless, stamp) == remote
            &&& commands.clean == "rm -f "@ + remote
            &&& request.user is None ==> commands.install == "pm install "@ + join(
                request.flags,
                " "@,
            ) + " "@ + remote
            &&& request.user is Some ==> commands.install == "pm install "@ + join(
                request.flags,
                " "@,
            ) + " --user "@ + request.user->0 + " "@ + remote
        }),
{
    reveal_strlit(" ");
    assert(" "@ =~= seq![' ']);
    let remote = package_path(stamp);
    let flags = join(request.flags, " "@);
    let nobody: Seq<char> = seq![];
    assert("pm install "@ + flags + nobody =~= "pm install "@ + flags);
    if request.user is Some {
        assert("pm install "@ + flags + (" --user "@ + request.user->0) =~= "pm install "@ + flags
            + " --user "@ + request.user->0);
    }
}

/// Through a server a package is installed from its place on the device and that place
/// is cleared, with the place and the user quoted.
pub proof fn packages_through_a_server_are_installed_in_quotes(request: Install, stamp: Seq<char>)
    ensures
        ({
            let remote = "/data/local/tmp/mab-server-install-"@ + stamp + ".apk"@;
            let commands = package_commands(Installer::Server, request, remote);
            &&& remote_path(Installer::Server, stamp) == remote
            &&& commands.clean == "rm -f -- "@ + shell_word(remote)
            &&& request.user is None ==> commands.install == "pm install "@ + join(
                request.flags,
                " "@,
            ) + " "@ + shell_word(remote)
            &&& request.user is Some ==> commands.install == "pm install "@ + join(
                request.flags,
                " "@,
            ) + " --user "@ + shell_word(request.user->0) + " "@ + shell_word(remote)
        }),
{
    reveal_strlit(" ");
    assert(" "@ =~= seq![' ']);
    let flags = join(request.flags, " "@);
    let nobody: Seq<char> = seq![];
    assert("pm install "@ + flags + nobody =~= "pm install "@ + flags);
    if request.user is Some {
        let user = shell_word(request.user->0);
        assert("pm install "@ + flags + (" --user "@ + user) =~= "pm install "@ + flags
            + " --user "@ + user);
    }
}

/// An output reports success by a line that holds that word alone; any other is the
/// reason of the failure, without the space around it.
pub proof fn outputs_report_success_on_a_line(output: Seq<u8>, i: int)
    ensures
        0 <= i < lines(lossy(output)).len() && trim(lines(lossy(output))[i]) == "Success"@
            ==> output_verdict(output) is Ok,
        (forall|j: int|
            0 <= j < lines(lossy(output)).len() ==> trim(#[trigger] lines(lossy(output))[j])
                != "Success"@) ==> output_verdict(output) == Err::<(), Seq<char>>(
            trim(lossy(output)),
        ),
{
}

/// A package that could not be sent is cleared over TCP, where part of it may have
/// arrived, and left through a server; the reason is the outcome either way.
pub proof fn unsent_packages_are_failures(
    commands: PackageCommands,
    error: Seq<char>,
    after: PackageEvent<Seq<char>, Seq<u8>>,
)
    ensures
        ({
            let unsent = package_next(commands, PackageWait::Uploading, PackageEvent::Failed(error));
            let failure = PackageAction::<Seq<char>>::Finish(Err(error));
            &&& commands.installer == Installer::Server ==> unsent.0 is Ended && unsent.1 == failure
            &&& commands.installer == Installer::Wireless ==> {
                &&& unsent.1 == PackageAction::Shell(commands.clean)
                &&& package_next(commands, unsent.0, after).0 is Ended
                &&& package_next(commands, unsent.0, after).1 == failure
            }
        }),
{
}

/// What the installation came to is the outcome, whatever becomes of the clearing.
pub proof fn outcomes_outlive_the_clearing(
    commands: PackageCommands,
    output: Seq<u8>,
    after: PackageEvent<Seq<char>, Seq<u8>>,
)
    ensures
        ({
            let told = package_next(
                commands,
                PackageWait::Installing,
                PackageEvent::Output(output),
            );
            let done = package_next(commands, PackageWait::Installing, PackageEvent::Done);
            &&& package_next(commands, told.0, after).1 == PackageAction::<Seq<char>>::Finish(
                output_verdict(output),
            )
            &&& package_next(commands, done.0, after).1 == PackageAction::<Seq<char>>::Finish(
                Ok(()),
            )
        }),
{
}

/// A package is removed by its name, with its data unless they are to be kept, and for
/// a user where one is given.
pub proof fn packages_are_removed_by_name(request: Uninstall)
    ensures
        wireless_uninstall(request) == match (request.keep_data, request.user) {
            (false, None) => "pm uninstall "@ + request.package,
            (true, None) => "pm uninstall "@ + "-k "@ + request.package,
            (false, Some(user)) => "pm uninstall "@ + "--user "@ + user + " "@ + request.package,
            (true, Some(user)) => "pm uninstall "@ + "-k "@ + "--user "@ + user + " "@
                + request.package,
        },
{
    let nothing: Seq<char> = seq![];
    assert("pm uninstall "@ + nothing =~= "pm uninstall "@);
    assert("pm uninstall "@ + "-k "@ + nothing =~= "pm uninstall "@ + "-k "@);
    if request.user is Some {
        let user = request.user->0;
        assert("pm uninstall "@ + ("--user "@ + user + " "@) =~= "pm uninstall "@ + "--user "@
            + user + " "@);
        assert("pm uninstall "@ + "-k "@ + ("--user "@ + user + " "@) =~= "pm uninstall "@ + "-k "@
            + "--user "@ + user + " "@);
    }
}

} // verus!
