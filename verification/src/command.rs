//! The services of a device, and the destinations that open them.

use crate::text::{copy_text, decimal, format_decimal, plus};
use vstd::prelude::*;

verus! {

/// A service of a device.
#[derive(Debug)]
pub enum ADBLocalCommand<T> {
    /// Run a command in the shell, with separate output, diagnostics and exit
    /// status.
    ShellCommand(T),
    /// Run a command with raw output.
    Exec(T),
    /// The file service.
    Sync,
    /// Add a reverse route from a device endpoint to a host endpoint.
    Reverse(T, T),
    /// Remove a reverse route.
    ReverseRemove(T),
    /// Restart the daemon of the device with root privileges.
    Root,
    /// Remount the partitions of the device writable.
    Remount,
    /// Make the device listen on a TCP port.
    TcpIp(u16),
}

/// What a service is.
pub open spec fn command_view(command: ADBLocalCommand<&str>) -> ADBLocalCommand<Seq<char>> {
    match command {
        ADBLocalCommand::ShellCommand(text) => ADBLocalCommand::ShellCommand(text@),
        ADBLocalCommand::Exec(text) => ADBLocalCommand::Exec(text@),
        ADBLocalCommand::Sync => ADBLocalCommand::Sync,
        ADBLocalCommand::Reverse(remote, local) => ADBLocalCommand::Reverse(remote@, local@),
        ADBLocalCommand::ReverseRemove(remote) => ADBLocalCommand::ReverseRemove(remote@),
        ADBLocalCommand::Root => ADBLocalCommand::Root,
        ADBLocalCommand::Remount => ADBLocalCommand::Remount,
        ADBLocalCommand::TcpIp(port) => ADBLocalCommand::TcpIp(port),
    }
}

/// The destination that opens a service.
pub open spec fn destination(command: ADBLocalCommand<Seq<char>>) -> Seq<char> {
    match command {
        ADBLocalCommand::ShellCommand(text) => "shell,v2:"@ + text,
        ADBLocalCommand::Exec(text) => "exec:"@ + text,
        ADBLocalCommand::Sync => "sync:"@,
        ADBLocalCommand::Reverse(remote, local) => "reverse:forward:"@ + remote + ";"@ + local,
        ADBLocalCommand::ReverseRemove(remote) => "reverse:killforward:"@ + remote,
        ADBLocalCommand::Root => "root:"@,
        ADBLocalCommand::Remount => "remount:"@,
        ADBLocalCommand::TcpIp(port) => "tcpip:"@ + decimal(port as nat),
    }
}

impl ADBLocalCommand<&str> {
    /// Writes the destination that opens the service.
    pub fn text(&self) -> (text: String)
        ensures
            text@ == destination(command_view(*self)),
    {
        match self {
            ADBLocalCommand::ShellCommand(text) => plus(copy_text("shell,v2:"), text),
            ADBLocalCommand::Exec(text) => plus(copy_text("exec:"), text),
            ADBLocalCommand::Sync => copy_text("sync:"),
            ADBLocalCommand::Reverse(remote, local) => plus(
                plus(plus(copy_text("reverse:forward:"), remote), ";"),
                local,
            ),
            ADBLocalCommand::ReverseRemove(remote) => plus(
                copy_text("reverse:killforward:"),
                remote,
            ),
            ADBLocalCommand::Root => copy_text("root:"),
            ADBLocalCommand::Remount => copy_text("remount:"),
            ADBLocalCommand::TcpIp(port) => plus(
                copy_text("tcpip:"),
                &format_decimal(*port as u64),
            ),
        }
    }
}

/// A service is opened by its name and what it is asked for. What is asked for stands
/// last, so that no text that follows the name is lost or changed, and of a reverse
/// route the end on the device comes first.
pub proof fn services_are_asked_by_name(
    text: Seq<char>,
    remote: Seq<char>,
    local: Seq<char>,
    port: u16,
)
    ensures
        destination(ADBLocalCommand::ShellCommand(text)) == "shell,v2:"@ + text,
        destination(ADBLocalCommand::Exec(text)) == "exec:"@ + text,
        destination(ADBLocalCommand::Sync) == "sync:"@,
        destination(ADBLocalCommand::Reverse(remote, local)) == "reverse:forward:"@ + remote
            + ";"@ + local,
        destination(ADBLocalCommand::ReverseRemove(remote)) == "reverse:killforward:"@ + remote,
        destination(ADBLocalCommand::Root) == "root:"@,
        destination(ADBLocalCommand::Remount) == "remount:"@,
        destination(ADBLocalCommand::TcpIp(port)) == "tcpip:"@ + decimal(port as nat),
{
}

} // verus!
