//! Devices that are reached over TCP.

use crate::command::{destination, ADBLocalCommand};
use crate::dispatched::{service_opened, DispatchedADBMessageDevice, Shared};
use crate::dispatcher::has_room;
use crate::error::{failed, AdbResult, RustADBError};
use crate::forward::{forward_port, pair_texts};
use crate::message::ADBTransportMessage;
use crate::message_device::{
    connect_event_view, connect_fits, connect_next, connect_view, opens, session_opened,
    ADBMessageDevice, ADBSession, ConnectAction, ConnectEvent, Connection,
};
use crate::operation::{Operation, Task};
use crate::reverse_relay::{relay_port, ReverseRelay};
use crate::table::{distinct, map_of};
use vstd::prelude::*;

verus! {

/// A device that is reached over TCP.
#[derive(Debug)]
pub struct ADBTcpDevice {
    inner: ADBMessageDevice,
}

impl ADBTcpDevice {
    /// The device behind the connection.
    pub closed spec fn inner(&self) -> ADBMessageDevice {
        self.inner
    }

    /// Begins the connection, with the key at the default path.
    pub fn new(default_key_path: String) -> (begun: (
        ADBTcpDevice,
        ConnectAction<ADBTransportMessage, Vec<u8>, RustADBError<String>>,
    ))
        ensures
            begun.0.inner().wf(),
            begun.0.inner().connection() == Connection::Seeking,
            begun.0.inner().key_path() == default_key_path@,
            begun.1 is SeekKey,
    {
        Self::new_with_custom_private_key(default_key_path)
    }

    /// Begins the connection, with the key at a path.
    pub fn new_with_custom_private_key(private_key_path: String) -> (begun: (
        ADBTcpDevice,
        ConnectAction<ADBTransportMessage, Vec<u8>, RustADBError<String>>,
    ))
        ensures
            begun.0.inner().wf(),
            begun.0.inner().connection() == Connection::Seeking,
            begun.0.inner().key_path() == private_key_path@,
            begun.1 is SeekKey,
    {
        let (inner, action) = ADBMessageDevice::new(private_key_path);
        (ADBTcpDevice { inner }, action)
    }

    /// Whether the device is connected.
    pub fn is_connected(&self) -> (connected: bool)
        ensures
            connected == (self.inner().connection() is Connected),
    {
        self.inner.is_connected()
    }

    /// Where the private key is.
    pub fn private_key_path(&self) -> (path: &str)
        ensures
            path@ == self.inner().key_path(),
    {
        self.inner.private_key_path()
    }

    /// Goes on with the connection.
    pub fn on_event(&mut self, event: ConnectEvent<ADBTransportMessage, Vec<u8>>) -> (action:
        ConnectAction<ADBTransportMessage, Vec<u8>, RustADBError<String>>)
        requires
            old(self).inner().wf(),
            connect_fits(old(self).inner().connection(), event),
        ensures
            final(self).inner().wf(),
            final(self).inner().key_path() == old(self).inner().key_path(),
            (final(self).inner().connection(), connect_view(action)) == connect_next(
                old(self).inner().connection(),
                connect_event_view(event),
            ),
    {
        self.inner.on_event(event)
    }

    /// Adds a reverse route: opens the session that asks for it.
    pub fn reverse_forward(&self, remote: &str, local: &str) -> (opened: AdbResult<
        (u32, ADBTransportMessage),
    >)
        ensures
            opens(opened, destination(ADBLocalCommand::Reverse(remote@, local@))),
    {
        self.inner.reverse_forward(remote, local)
    }

    /// Serves a reverse route that the device has granted. A host endpoint that is
    /// no TCP port is refused.
    pub fn run_reverse_relay(&self, remote: String, local: &str) -> (relay: AdbResult<
        ReverseRelay,
    >)
        ensures
            match relay_port(local@) {
                Ok(port) => {
                    &&& relay is Ok
                    &&& relay->Ok_0.wf()
                    &&& relay->Ok_0.remote() == remote@
                    &&& relay->Ok_0.port() == port
                    &&& relay->Ok_0.streams() == Map::<u32, u32>::empty()
                },
                Err(error) => failed(relay, error),
            },
    {
        self.inner.run_reverse_relay(remote, local)
    }

    /// Removes a reverse route: opens the session that asks for it.
    pub fn remove_reverse_forward(&self, remote: &str) -> (opened: AdbResult<
        (u32, ADBTransportMessage),
    >)
        ensures
            opens(opened, destination(ADBLocalCommand::ReverseRemove(remote@))),
    {
        self.inner.remove_reverse_forward(remote)
    }

    /// Takes the answer to an attempt to open a session.
    pub fn on_opened(&self, local_id: u32, message: &ADBTransportMessage) -> (session: AdbResult<
        ADBSession,
    >)
        ensures
            match session_opened(local_id, message@) {
                Ok(opened) => session is Ok && session->Ok_0 == opened,
                Err(error) => failed(session, error),
            },
    {
        self.inner.on_opened(local_id, message)
    }

    /// Hands the transport of a connected device to a dispatcher.
    pub fn into_dispatched(self) -> (device: ADBDispatchedTCPDevice)
        requires
            self.inner().connection() is Connected,
        ensures
            device.inner().wf(),
            device.inner().fresh(),
    {
        ADBDispatchedTCPDevice { inner: self.inner.into_dispatched() }
    }
}

/// A device over TCP whose packets one reader gives out.
#[derive(Debug)]
pub struct ADBDispatchedTCPDevice {
    inner: DispatchedADBMessageDevice,
}

impl ADBDispatchedTCPDevice {
    /// The device behind the connection.
    pub closed spec fn inner(&self) -> DispatchedADBMessageDevice {
        self.inner
    }

    /// The device that packets and events are handed to.
    pub fn shared(&mut self) -> (shared: &mut DispatchedADBMessageDevice)
        ensures
            *shared == old(self).inner(),
            final(self).inner() == *final(shared),
    {
        &mut self.inner
    }

    /// Runs a command in the shell.
    pub fn shell_command(&mut self, command: &str) -> (opened: AdbResult<
        (Operation, ADBTransportMessage),
    >)
        requires
            old(self).inner().wf(),
            has_room(old(self).inner()@.board.sessions),
        ensures
            final(self).inner().wf(),
            final(self).inner().next_ticket() == old(self).inner().next_ticket(),
            service_opened(
                old(self).inner()@,
                final(self).inner()@,
                destination(ADBLocalCommand::ShellCommand(command@)),
                Task::Shell,
                opened,
            ),
    {
        self.inner.shell_command(command)
    }

    /// Uploads a file.
    pub fn push(&mut self, path: &str) -> (opened: AdbResult<(Operation, ADBTransportMessage)>)
        requires
            old(self).inner().wf(),
            has_room(old(self).inner()@.board.sessions),
        ensures
            final(self).inner().wf(),
            final(self).inner().next_ticket() == old(self).inner().next_ticket(),
            service_opened(
                old(self).inner()@,
                final(self).inner()@,
                destination(ADBLocalCommand::Sync),
                Task::Push(path@),
                opened,
            ),
    {
        self.inner.push(path)
    }

    /// Downloads a file.
    pub fn pull(&mut self, path: &str) -> (opened: AdbResult<(Operation, ADBTransportMessage)>)
        requires
            old(self).inner().wf(),
            has_room(old(self).inner()@.board.sessions),
        ensures
            final(self).inner().wf(),
            final(self).inner().next_ticket() == old(self).inner().next_ticket(),
            service_opened(
                old(self).inner()@,
                final(self).inner()@,
                destination(ADBLocalCommand::Sync),
                Task::Pull(path@),
                opened,
            ),
    {
        self.inner.pull(path)
    }

    /// The port that a new forwarding rule listens on.
    pub fn serve_forward(&self, local: &str) -> (port: AdbResult<u16>)
        requires
            self.inner().wf(),
        ensures
            match forward_port(self.inner()@.forwards, local@) {
                Ok(number) => port is Ok && port->Ok_0 == number,
                Err(error) => failed(port, error),
            },
    {
        self.inner.serve_forward(local)
    }

    /// Lists the forwarding rules.
    pub fn forward_routes(&self) -> (list: Vec<(String, String)>)
        requires
            self.inner().wf(),
        ensures
            distinct(pair_texts(list@)),
            map_of(pair_texts(list@)) == self.inner()@.forwards.map_values(
                |rule: (Seq<char>, u64)| rule.0,
            ),
    {
        self.inner.forward_routes()
    }

    /// Removes a forwarding rule and says whether it was there.
    pub fn remove_forward(&mut self, local: &str) -> (removed: bool)
        requires
            old(self).inner().wf(),
        ensures
            final(self).inner().wf(),
            final(self).inner().next_ticket() == old(self).inner().next_ticket(),
            removed == old(self).inner()@.forwards.contains_key(local@),
            final(self).inner()@ == (Shared {
                forwards: old(self).inner()@.forwards.remove(local@),
                ..old(self).inner()@
            }),
    {
        self.inner.remove_forward(local)
    }

    /// Removes every forwarding rule and says how many there were.
    pub fn remove_all_forwards(&mut self) -> (count: usize)
        requires
            old(self).inner().wf(),
        ensures
            final(self).inner().wf(),
            final(self).inner().next_ticket() == old(self).inner().next_ticket(),
            old(self).inner()@.forwards.dom().finite(),
            count == old(self).inner()@.forwards.dom().len(),
            final(self).inner()@ == (Shared {
                forwards: Map::<Seq<char>, (Seq<char>, u64)>::empty(),
                ..old(self).inner()@
            }),
    {
        self.inner.remove_all_forwards()
    }

    /// Whether the transport is still connected.
    pub fn is_alive(&self) -> (alive: bool)
        ensures
            alive == self.inner()@.board.alive,
    {
        self.inner.is_alive()
    }

    /// Adds a forwarding rule whose listener is bound: from then on the rule is
    /// ready.
    pub fn serve_forward_ready(&mut self, local: &str, remote: &str) -> (ticket: AdbResult<u64>)
        requires
            old(self).inner().wf(),
            old(self).inner().next_ticket() < u64::MAX,
        ensures
            final(self).inner().wf(),
            final(self).inner()@.board == old(self).inner()@.board,
            match forward_port(old(self).inner()@.forwards, local@) {
                Ok(_) => {
                    &&& ticket is Ok
                    &&& ticket->Ok_0 == old(self).inner().next_ticket()
                    &&& final(self).inner().next_ticket() == old(self).inner().next_ticket() + 1
                    &&& final(self).inner()@.forwards == old(self).inner()@.forwards.insert(
                        local@,
                        (remote@, ticket->Ok_0),
                    )
                },
                Err(error) => {
                    &&& failed(ticket, error)
                    &&& final(self).inner()@ == old(self).inner()@
                    &&& final(self).inner().next_ticket() == old(self).inner().next_ticket()
                },
            },
    {
        self.inner.forward_bound(local, remote)
    }
}

} // verus!
