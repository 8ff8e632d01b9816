//! The services of a device whose packets one reader gives out.

use crate::command::{command_view, destination, ADBLocalCommand};
use crate::dispatcher::{
    after_error, has_room, lemma_room, next_id, route_entries, stopped, Board, Delivery,
    TransportDispatcher,
};
use crate::error::{failed, failure, AdbResult, RustADBError};
use crate::forward::{
    forward_port, open_destination, pair_texts, ForwardConnection, ForwardTable,
};
use crate::message::{packet, ADBTransportMessage, MessageCommand, Packet};
use crate::operation::{
    answered, grants, requests_succeed_where_granted, task_view, Operation, Progress, Stage, Task,
};
use crate::service::{destination_bytes, open_packet, DispatchedService};
use crate::table::{distinct, has_key, map_of, place};
use crate::text::{
    copy_text, decimal, format_decimal, parse_tcp_port, plus, ports_stand_behind_their_protocol,
    tcp_port, texts,
};
use vstd::prelude::*;
use vstd::utf8::*;

verus! {

/// What a dispatched device is: what its dispatcher knows, and its forwarding
/// rules.
#[verifier::ext_equal]
pub ghost struct Shared {
    /// What its dispatcher knows.
    pub board: Board,
    /// The device endpoint and the ticket of each forwarded host endpoint.
    pub forwards: Map<Seq<char>, (Seq<char>, u64)>,
}

/// A device whose transport has exactly one reader.
#[derive(Debug)]
pub struct DispatchedADBMessageDevice {
    dispatcher: TransportDispatcher,
    forwards: ForwardTable,
}

/// What opening a service makes of a device: a session with the lowest free
/// identifier, and the packet that opens the stream.
pub open spec fn service_opened(
    before: Shared,
    after: Shared,
    text: Seq<char>,
    task: Task<Seq<char>>,
    opened: AdbResult<(Operation, ADBTransportMessage)>,
) -> bool {
    &&& after.forwards == before.forwards
    &&& if !before.board.alive {
        failed(opened, stopped()) && after == before
    } else {
        let id = next_id(before.board.sessions);
        if destination_bytes(text).len() <= u32::MAX {
            &&& after.board == (Board {
                sessions: before.board.sessions.insert(id, seq![]),
                ..before.board
            })
            &&& opened is Ok
            &&& opened->Ok_0.0@ == (Progress {
                service: DispatchedService { local_id: id, remote_id: 0 },
                stage: Stage::Opening(task),
            })
            &&& opened->Ok_0.1@ == packet(MessageCommand::Open, id, 0, destination_bytes(text))
        } else {
            &&& after == before
            &&& opened is Err
            &&& opened->Err_0@ == RustADBError::<Seq<char>>::NumberOverflow
        }
    }
}

/// The host endpoint of a reverse route, as it is kept.
pub open spec fn reverse_endpoint(local: Seq<char>) -> Result<Seq<char>, Seq<char>> {
    match tcp_port(local) {
        Some(port) => if port == 0 {
            Err("reverse requires tcp:<port>"@)
        } else {
            Ok("tcp:"@ + decimal(port))
        },
        None => Err("reverse requires tcp:<port>"@),
    }
}

/// A device without the reverse route of a device endpoint.
pub open spec fn without_route(shared: Shared, remote: Seq<char>) -> Shared {
    Shared {
        board: Board { routes: shared.board.routes.remove(remote), ..shared.board },
        ..shared
    }
}

/// What asking for a reverse route makes of a device: the route is there before the
/// device is asked, and goes again where it cannot be asked.
pub open spec fn reverse_begins(
    before: Shared,
    after: Shared,
    remote: Seq<char>,
    local: Seq<char>,
    opened: AdbResult<(Operation, ADBTransportMessage)>,
) -> bool {
    match reverse_endpoint(local) {
        Err(error) => failed(opened, error) && after == before,
        Ok(endpoint) => if !before.board.alive {
            failed(opened, "dispatcher stopped"@) && after == before
        } else {
            let text = destination(ADBLocalCommand::Reverse(remote, local));
            let routes = before.board.routes.insert(remote, endpoint);
            let routed = Shared { board: Board { routes, ..before.board }, ..before };
            if destination_bytes(text).len() <= u32::MAX {
                service_opened(routed, after, text, Task::Collect, opened)
            } else {
                &&& opened is Err
                &&& opened->Err_0@ == RustADBError::<Seq<char>>::NumberOverflow
                &&& after == without_route(before, remote)
            }
        },
    }
}

/// What the outcome of asking for a reverse route makes of a device.
pub open spec fn reverse_settled(shared: Shared, remote: Seq<char>, granted: bool) -> Shared {
    if granted || !shared.board.alive {
        shared
    } else {
        without_route(shared, remote)
    }
}

/// The reverse routes that are left to be removed. The next of them is the last.
#[derive(Debug)]
pub struct RouteRemoval {
    remotes: Vec<String>,
}

/// What removing every reverse route comes to next.
#[derive(Debug)]
pub enum RemovalStep<R, O> {
    /// Ask the device to remove the next of these routes.
    Ask(R),
    /// The removal is over.
    Finish(O),
}

/// What a step of the removal of every route says.
pub open spec fn removal_view(step: RemovalStep<RouteRemoval, AdbResult<()>>) -> RemovalStep<
    Seq<Seq<char>>,
    Result<(), RustADBError<Seq<char>>>,
> {
    match step {
        RemovalStep::Ask(removal) => RemovalStep::Ask(removal.left()),
        RemovalStep::Finish(Ok(())) => RemovalStep::Finish(Ok(())),
        RemovalStep::Finish(Err(error)) => RemovalStep::Finish(Err(error@)),
    }
}

/// How the removal of every route begins: with all of them, each once.
pub open spec fn removal_begins(
    shared: Shared,
    step: RemovalStep<Seq<Seq<char>>, Result<(), RustADBError<Seq<char>>>>,
) -> bool {
    match step {
        RemovalStep::Ask(left) => {
            &&& shared.board.alive
            &&& left.len() > 0
            &&& left.no_duplicates()
            &&& left.to_set() == shared.board.routes.dom()
        },
        RemovalStep::Finish(Ok(())) => {
            &&& shared.board.alive
            &&& shared.board.routes == Map::<Seq<char>, Seq<char>>::empty()
        },
        RemovalStep::Finish(Err(error)) => {
            &&& !shared.board.alive
            &&& error == RustADBError::ADBRequestFailed("dispatcher stopped"@)
        },
    }
}

/// How the removal of every route goes on with those that are left.
pub open spec fn removal_next(left: Seq<Seq<char>>) -> RemovalStep<
    Seq<Seq<char>>,
    Result<(), RustADBError<Seq<char>>>,
> {
    if left.len() == 0 {
        RemovalStep::Finish(Ok(()))
    } else {
        RemovalStep::Ask(left)
    }
}

/// What the outcome of asking the device to remove a route makes of the device and
/// of the removal of every route. The first refusal ends it, and that route stays.
pub open spec fn removal_told(
    shared: Shared,
    left: Seq<Seq<char>>,
    outcome: Result<(), RustADBError<Seq<char>>>,
) -> (Shared, RemovalStep<Seq<Seq<char>>, Result<(), RustADBError<Seq<char>>>>) {
    match outcome {
        Err(error) => (shared, RemovalStep::Finish(Err(error))),
        Ok(()) => if shared.board.alive {
            (without_route(shared, left.last()), removal_next(left.drop_last()))
        } else {
            (
                shared,
                RemovalStep::Finish(Err(RustADBError::ADBRequestFailed("dispatcher stopped"@))),
            )
        },
    }
}

impl RouteRemoval {
    /// The device endpoints of the routes that are left.
    pub closed spec fn left(&self) -> Seq<Seq<char>> {
        texts(self.remotes@)
    }

    /// The device endpoint of the route to remove next.
    pub fn remote(&self) -> (remote: &str)
        requires
            self.left().len() > 0,
        ensures
            remote@ == self.left().last(),
    {
        assert(self.left().last() == self.remotes@.last()@);
        self.remotes[self.remotes.len() - 1].as_str()
    }

    /// Goes on with the routes that are left.
    fn proceed(self) -> (step: RemovalStep<RouteRemoval, AdbResult<()>>)
        ensures
            removal_view(step) == removal_next(self.left()),
    {
        if self.remotes.len() == 0 {
            RemovalStep::Finish(Ok(()))
        } else {
            RemovalStep::Ask(self)
        }
    }
}

impl DispatchedADBMessageDevice {
    /// What the device is.
    pub closed spec fn view(&self) -> Shared {
        Shared { board: self.dispatcher@, forwards: self.forwards@ }
    }

    /// The ticket of the next forwarding rule.
    pub closed spec fn next_ticket(&self) -> u64 {
        self.forwards.next()
    }

    /// The dispatcher and the rules are well formed.
    pub closed spec fn wf(&self) -> bool {
        self.dispatcher.wf() && self.forwards.wf()
    }

    /// The device was just handed to its dispatcher.
    pub open spec fn fresh(&self) -> bool {
        &&& self@.board == (Board { alive: true, sessions: Map::empty(), routes: Map::empty() })
        &&& self@.forwards == Map::<Seq<char>, (Seq<char>, u64)>::empty()
        &&& self.next_ticket() == 0
    }

    /// A device that was just handed to its dispatcher.
    pub fn new() -> (device: DispatchedADBMessageDevice)
        ensures
            device.wf(),
            device.fresh(),
    {
        DispatchedADBMessageDevice {
            dispatcher: TransportDispatcher::start(),
            forwards: ForwardTable::new(),
        }
    }

    /// The dispatcher.
    pub fn dispatcher(&self) -> (dispatcher: &TransportDispatcher)
        requires
            self.wf(),
        ensures
            dispatcher.wf(),
            dispatcher@ == self@.board,
    {
        &self.dispatcher
    }

    /// Takes a packet of the transport in.
    pub fn on_packet(&mut self, packet: ADBTransportMessage) -> (became: Delivery<
        ADBTransportMessage,
    >)
        requires
            old(self).wf(),
            packet.header.command == MessageCommand::Open ==> has_room(
                old(self)@.board.sessions,
            ),
        ensures
            final(self).wf(),
            final(self).next_ticket() == old(self).next_ticket(),
            became@ == crate::dispatcher::delivery(old(self)@.board, packet@),
            final(self)@ == (Shared {
                board: Board {
                    sessions: crate::dispatcher::sessions_after(old(self)@.board, packet@),
                    ..old(self)@.board
                },
                ..old(self)@
            }),
    {
        self.dispatcher.on_packet(packet)
    }

    /// Takes a packet that waits for a session out.
    pub fn receive(&mut self, local_id: u32) -> (packet: AdbResult<Option<ADBTransportMessage>>)
        requires
            old(self).wf(),
        ensures
            final(self).wf(),
            final(self).next_ticket() == old(self).next_ticket(),
            final(self)@.forwards == old(self)@.forwards,
            ({
                let board = old(self)@.board;
                if board.sessions.contains_key(local_id) && board.sessions[local_id].len() > 0 {
                    let queue = board.sessions[local_id];
                    &&& packet is Ok
                    &&& packet->Ok_0 is Some
                    &&& packet->Ok_0->0@ == queue[0]
                    &&& final(self)@.board == (Board {
                        sessions: board.sessions.insert(local_id, queue.drop_first()),
                        ..board
                    })
                } else {
                    &&& final(self)@.board == board
                    &&& if board.alive && board.sessions.contains_key(local_id) {
                        packet is Ok && packet->Ok_0 is None
                    } else {
                        failed(packet, stopped())
                    }
                }
            }),
    {
        self.dispatcher.receive(local_id)
    }

    /// Ends a session.
    pub fn close(&mut self, local_id: u32)
        requires
            old(self).wf(),
        ensures
            final(self).wf(),
            final(self).next_ticket() == old(self).next_ticket(),
            final(self)@ == (Shared {
                board: Board {
                    sessions: old(self)@.board.sessions.remove(local_id),
                    ..old(self)@.board
                },
                ..old(self)@
            }),
    {
        self.dispatcher.unregister(local_id)
    }

    /// Takes the failure of a read, and says whether the transport is read on.
    pub fn on_error(&mut self, error: &RustADBError<String>) -> (goes_on: bool)
        requires
            old(self).wf(),
        ensures
            final(self).wf(),
            final(self).next_ticket() == old(self).next_ticket(),
            final(self)@.forwards == old(self)@.forwards,
            goes_on == (*error is TimedOut),
            final(self)@.board == after_error(old(self)@.board, error@),
    {
        self.dispatcher.on_error(error)
    }

    /// Opens a service. The session is registered before the stream is opened,
    /// so that no answer can be lost.
    fn open_session(&mut self, command: &ADBLocalCommand<&str>, task: Task<String>) -> (opened:
        AdbResult<(Operation, ADBTransportMessage)>)
        requires
            old(self).wf(),
            has_room(old(self)@.board.sessions),
        ensures
            final(self).wf(),
            final(self).next_ticket() == old(self).next_ticket(),
            service_opened(
                old(self)@,
                final(self)@,
                destination(command_view(*command)),
                task_view(task),
                opened,
            ),
    {
        match self.dispatcher.check_write() {
            Ok(()) => {},
            Err(error) => return Err(error),
        }
        let local_id: u32 = match self.dispatcher.free_id() {
            Some(id) => id,
            None => 0,
        };
        let message: ADBTransportMessage = match open_packet(local_id, &command.text()) {
            Ok(message) => message,
            Err(error) => return Err(error),
        };
        match self.dispatcher.register(local_id) {
            Ok(()) => Ok((Operation::begin(local_id, task), message)),
            Err(error) => Err(error),
        }
    }

    /// Runs a command in the shell.
    pub fn shell_command(&mut self, command: &str) -> (opened: AdbResult<
        (Operation, ADBTransportMessage),
    >)
        requires
            old(self).wf(),
            has_room(old(self)@.board.sessions),
        ensures
            final(self).wf(),
            final(self).next_ticket() == old(self).next_ticket(),
            service_opened(
                old(self)@,
                final(self)@,
                destination(ADBLocalCommand::ShellCommand(command@)),
                Task::Shell,
                opened,
            ),
    {
        self.open_session(&ADBLocalCommand::ShellCommand(command), Task::Shell)
    }

    /// Runs a command with raw output.
    pub fn exec_out(&mut self, command: &str) -> (opened: AdbResult<
        (Operation, ADBTransportMessage),
    >)
        requires
            old(self).wf(),
            has_room(old(self)@.board.sessions),
        ensures
            final(self).wf(),
            final(self).next_ticket() == old(self).next_ticket(),
            service_opened(
                old(self)@,
                final(self)@,
                destination(ADBLocalCommand::Exec(command@)),
                Task::Drain,
                opened,
            ),
    {
        self.open_session(&ADBLocalCommand::Exec(command), Task::Drain)
    }

    /// Downloads a file.
    pub fn pull(&mut self, path: &str) -> (opened: AdbResult<(Operation, ADBTransportMessage)>)
        requires
            old(self).wf(),
            has_room(old(self)@.board.sessions),
        ensures
            final(self).wf(),
            final(self).next_ticket() == old(self).next_ticket(),
            service_opened(
                old(self)@,
                final(self)@,
                destination(ADBLocalCommand::Sync),
                Task::Pull(path@),
                opened,
            ),
    {
        self.open_session(&ADBLocalCommand::Sync, Task::Pull(copy_text(path)))
    }

    /// Uploads a file.
    pub fn push(&mut self, path: &str) -> (opened: AdbResult<(Operation, ADBTransportMessage)>)
        requires
            old(self).wf(),
            has_room(old(self)@.board.sessions),
        ensures
            final(self).wf(),
            final(self).next_ticket() == old(self).next_ticket(),
            service_opened(
                old(self)@,
                final(self)@,
                destination(ADBLocalCommand::Sync),
                Task::Push(path@),
                opened,
            ),
    {
        self.open_session(&ADBLocalCommand::Sync, Task::Push(copy_text(path)))
    }

    /// Restarts the daemon of the device with root privileges.
    pub fn root(&mut self) -> (opened: AdbResult<(Operation, ADBTransportMessage)>)
        requires
            old(self).wf(),
            has_room(old(self)@.board.sessions),
        ensures
            final(self).wf(),
            final(self).next_ticket() == old(self).next_ticket(),
            service_opened(
                old(self)@,
                final(self)@,
                destination(ADBLocalCommand::Root),
                Task::Drain,
                opened,
            ),
    {
        self.open_session(&ADBLocalCommand::Root, Task::Drain)
    }

    /// Remounts the partitions of the device writable.
    pub fn remount(&mut self) -> (opened: AdbResult<(Operation, ADBTransportMessage)>)
        requires
            old(self).wf(),
            has_room(old(self)@.board.sessions),
        ensures
            final(self).wf(),
            final(self).next_ticket() == old(self).next_ticket(),
            service_opened(
                old(self)@,
                final(self)@,
                destination(ADBLocalCommand::Remount),
                Task::Drain,
                opened,
            ),
    {
        self.open_session(&ADBLocalCommand::Remount, Task::Drain)
    }

    /// Makes the device listen on a TCP port.
    pub fn tcpip(&mut self, port: u16) -> (opened: AdbResult<(Operation, ADBTransportMessage)>)
        requires
            old(self).wf(),
            has_room(old(self)@.board.sessions),
        ensures
            final(self).wf(),
            final(self).next_ticket() == old(self).next_ticket(),
            service_opened(
                old(self)@,
                final(self)@,
                destination(ADBLocalCommand::TcpIp(port)),
                Task::Drain,
                opened,
            ),
    {
        self.open_session(&ADBLocalCommand::TcpIp(port), Task::Drain)
    }

    /// Adds a reverse route. The route is there before the device is asked, and
    /// `reverse_forward_done` takes it back if the device refuses.
    pub fn reverse_forward(&mut self, remote: &str, local: &str) -> (opened: AdbResult<
        (Operation, ADBTransportMessage),
    >)
        requires
            old(self).wf(),
            has_room(old(self)@.board.sessions),
        ensures
            final(self).wf(),
            final(self).next_ticket() == old(self).next_ticket(),
            reverse_begins(old(self)@, final(self)@, remote@, local@, opened),
    {
        let port: u16 = match parse_tcp_port(local) {
            Some(port) => port,
            None => return Err(failure("reverse requires tcp:<port>")),
        };
        if port == 0 {
            return Err(failure("reverse requires tcp:<port>"));
        }
        let endpoint: String = plus(copy_text("tcp:"), &format_decimal(port as u64));
        let ghost before = self@;
        match self.dispatcher.set_route(remote, Some(endpoint)) {
            Ok(()) => {},
            Err(error) => return Err(error),
        }
        match self.open_session(&ADBLocalCommand::Reverse(remote, local), Task::Collect) {
            Ok(opened) => Ok(opened),
            Err(error) => {
                let _ = self.dispatcher.set_route(remote, None);
                proof {
                    let endpoint = reverse_endpoint(local@)->Ok_0;
                    assert(before.board.routes.insert(remote@, endpoint).remove(remote@)
                        =~= before.board.routes.remove(remote@));
                }
                Err(error)
            },
        }
    }

    /// Takes the outcome of adding a reverse route: the route goes where the
    /// device refused it.
    pub fn reverse_forward_done(&mut self, remote: &str, granted: bool)
        requires
            old(self).wf(),
        ensures
            final(self).wf(),
            final(self).next_ticket() == old(self).next_ticket(),
            final(self)@ == reverse_settled(old(self)@, remote@, granted),
    {
        if !granted {
            let _ = self.dispatcher.set_route(remote, None);
        }
    }

    /// Removes a reverse route: asks the device for it.
    pub fn remove_reverse_forward(&mut self, remote: &str) -> (opened: AdbResult<
        (Operation, ADBTransportMessage),
    >)
        requires
            old(self).wf(),
            has_room(old(self)@.board.sessions),
        ensures
            final(self).wf(),
            final(self).next_ticket() == old(self).next_ticket(),
            service_opened(
                old(self)@,
                final(self)@,
                destination(ADBLocalCommand::ReverseRemove(remote@)),
                Task::Collect,
                opened,
            ),
    {
        self.open_session(&ADBLocalCommand::ReverseRemove(remote), Task::Collect)
    }

    /// Takes the consent of the device to the removal of a reverse route.
    pub fn remove_reverse_forward_done(&mut self, remote: &str) -> (removed: AdbResult<()>)
        requires
            old(self).wf(),
        ensures
            final(self).wf(),
            final(self).next_ticket() == old(self).next_ticket(),
            if old(self)@.board.alive {
                &&& removed is Ok
                &&& final(self)@ == without_route(old(self)@, remote@)
            } else {
                failed(removed, "dispatcher stopped"@) && final(self)@ == old(self)@
            },
    {
        self.dispatcher.set_route(remote, None)
    }

    /// Lists the reverse routes.
    pub fn reverse_routes(&self) -> (routes: AdbResult<Vec<(String, String)>>)
        requires
            self.wf(),
        ensures
            if self@.board.alive {
                &&& routes is Ok
                &&& distinct(route_entries(routes->Ok_0@))
                &&& map_of(route_entries(routes->Ok_0@)) == self@.board.routes
            } else {
                failed(routes, "dispatcher stopped"@)
            },
    {
        self.dispatcher.routes()
    }

    /// Removes every reverse route: `remove_reverse_forward` asks the device for the
    /// next of them, and `route_removed` takes the outcome.
    pub fn remove_all_reverse_routes(&self) -> (step: RemovalStep<RouteRemoval, AdbResult<()>>)
        requires
            self.wf(),
        ensures
            removal_begins(self@, removal_view(step)),
    {
        match self.reverse_remotes() {
            Ok(remotes) => {
                let removal = RouteRemoval { remotes };
                proof {
                    let left = removal.left();
                    assert(left == texts(removal.remotes@));
                    if left.len() == 0 {
                        assert(left.to_set() =~= Set::empty());
                        assert(self@.board.routes =~= Map::<Seq<char>, Seq<char>>::empty());
                    }
                }
                removal.proceed()
            },
            Err(error) => RemovalStep::Finish(Err(error)),
        }
    }

    /// Takes the outcome of asking the device to remove the next of the routes that
    /// are left.
    pub fn route_removed(&mut self, removal: RouteRemoval, outcome: AdbResult<()>) -> (step:
        RemovalStep<RouteRemoval, AdbResult<()>>)
        requires
            old(self).wf(),
            removal.left().len() > 0,
        ensures
            final(self).wf(),
            final(self).next_ticket() == old(self).next_ticket(),
            (final(self)@, removal_view(step)) == removal_told(
                old(self)@,
                removal.left(),
                match outcome {
                    Ok(()) => Ok(()),
                    Err(error) => Err(error@),
                },
            ),
    {
        match outcome {
            Ok(()) => {},
            Err(error) => return RemovalStep::Finish(Err(error)),
        }
        match self.remove_reverse_forward_done(removal.remote()) {
            Ok(()) => {},
            Err(error) => return RemovalStep::Finish(Err(error)),
        }
        let ghost before = removal.left();
        let mut remotes: Vec<String> = removal.remotes;
        let _ = remotes.pop();
        let rest = RouteRemoval { remotes };
        assert(rest.left() =~= before.drop_last());
        rest.proceed()
    }

    /// Lists the device endpoints of the reverse routes.
    fn reverse_remotes(&self) -> (remotes: AdbResult<Vec<String>>)
        requires
            self.wf(),
        ensures
            if self@.board.alive {
                &&& remotes is Ok
                &&& texts(remotes->Ok_0@).no_duplicates()
                &&& texts(remotes->Ok_0@).to_set() == self@.board.routes.dom()
            } else {
                failed(remotes, "dispatcher stopped"@)
            },
    {
        let routes: Vec<(String, String)> = match self.reverse_routes() {
            Ok(routes) => routes,
            Err(error) => return Err(error),
        };
        let ghost entries = route_entries(routes@);
        let mut remotes: Vec<String> = Vec::new();
        let mut i: usize = 0;
        while i < routes.len()
            invariant
                i <= routes@.len(),
                remotes@.len() == i,
                entries == route_entries(routes@),
                forall|j: int| 0 <= j < i ==> (#[trigger] remotes@[j])@ == entries[j].0,
            decreases routes@.len() - i,
        {
            assert(entries[i as int].0 == routes@[i as int].0@);
            remotes.push(copy_text(&routes[i].0));
            i = i + 1;
        }
        proof {
            let list = texts(remotes@);
            assert(forall|j: int| 0 <= j < list.len() ==> list[j] == (#[trigger] entries[j]).0);
            assert forall|a: int, b: int|
                0 <= a < list.len() && 0 <= b < list.len() && a != b implies list[a] != list[b] by {
                if a < b {
                    assert(entries[a].0 != entries[b].0);
                } else {
                    assert(entries[b].0 != entries[a].0);
                }
            }
            assert forall|key: Seq<char>|
                list.to_set().contains(key) == self@.board.routes.dom().contains(key) by {
                if list.contains(key) {
                    let j = choose|j: int| 0 <= j < list.len() && list[j] == key;
                    assert(entries[j].0 == key);
                    assert(has_key(entries, key));
                }
                if has_key(entries, key) {
                    let j = place(entries, key);
                    assert(list[j] == key);
                }
            }
            assert(list.to_set() =~= self@.board.routes.dom());
        }
        Ok(remotes)
    }

    /// Whether the transport is still connected.
    pub fn is_alive(&self) -> (alive: bool)
        ensures
            alive == self@.board.alive,
    {
        self.dispatcher.is_alive()
    }

    /// The port that a new forwarding rule listens on.
    pub fn serve_forward(&self, local: &str) -> (port: AdbResult<u16>)
        requires
            self.wf(),
        ensures
            match forward_port(self@.forwards, local@) {
                Ok(number) => port is Ok && port->Ok_0 == number,
                Err(error) => failed(port, error),
            },
    {
        self.forwards.check(local)
    }

    /// Whether another forwarding rule can be added to those that there were.
    pub fn has_ticket(&self) -> (has: bool)
        ensures
            has == (self.next_ticket() < u64::MAX),
    {
        self.forwards.has_ticket()
    }

    /// Adds a forwarding rule whose listener is bound.
    pub fn forward_bound(&mut self, local: &str, remote: &str) -> (ticket: AdbResult<u64>)
        requires
            old(self).wf(),
            old(self).next_ticket() < u64::MAX,
        ensures
            final(self).wf(),
            final(self)@.board == old(self)@.board,
            match forward_port(old(self)@.forwards, local@) {
                Ok(_) => {
                    &&& ticket is Ok
                    &&& ticket->Ok_0 == old(self).next_ticket()
                    &&& final(self).next_ticket() == old(self).next_ticket() + 1
                    &&& final(self)@.forwards == old(self)@.forwards.insert(
                        local@,
                        (remote@, ticket->Ok_0),
                    )
                },
                Err(error) => {
                    &&& failed(ticket, error)
                    &&& final(self)@ == old(self)@
                    &&& final(self).next_ticket() == old(self).next_ticket()
                },
            },
    {
        self.forwards.insert(local, remote)
    }

    /// Opens a stream to the device endpoint of a forwarded connection. The session
    /// is registered before the stream is opened, so that no answer can be lost.
    pub fn open_destination(&mut self, destination: &str) -> (opened: AdbResult<
        (ForwardConnection, ADBTransportMessage),
    >)
        requires
            old(self).wf(),
            has_room(old(self)@.board.sessions),
        ensures
            final(self).wf(),
            final(self).next_ticket() == old(self).next_ticket(),
            final(self)@.forwards == old(self)@.forwards,
            if !old(self)@.board.alive {
                failed(opened, stopped()) && final(self)@ == old(self)@
            } else if encode_utf8(destination@).len() < u32::MAX {
                let id = next_id(old(self)@.board.sessions);
                &&& final(self)@.board == (Board {
                    sessions: old(self)@.board.sessions.insert(id, seq![]),
                    ..old(self)@.board
                })
                &&& opened is Ok
                &&& opened->Ok_0.0 == (ForwardConnection {
                    service: DispatchedService { local_id: id, remote_id: 0 },
                    open: false,
                    pending: false,
                })
                &&& opened->Ok_0.1@ == packet(
                    MessageCommand::Open,
                    id,
                    0,
                    encode_utf8(destination@).push(0),
                )
            } else {
                &&& final(self)@ == old(self)@
                &&& opened is Err
                &&& opened->Err_0@ == RustADBError::<Seq<char>>::NumberOverflow
            },
    {
        match self.dispatcher.check_write() {
            Ok(()) => {},
            Err(error) => return Err(error),
        }
        let local_id: u32 = match self.dispatcher.free_id() {
            Some(id) => id,
            None => 0,
        };
        let message: ADBTransportMessage = match open_destination(local_id, destination) {
            Ok(message) => message,
            Err(error) => return Err(error),
        };
        match self.dispatcher.register(local_id) {
            Ok(()) => Ok((ForwardConnection::new(local_id), message)),
            Err(error) => Err(error),
        }
    }

    /// Whether the listener of a forwarding rule has to stop.
    pub fn forward_stopped(&self, local: &str, ticket: u64) -> (stopped: bool)
        requires
            self.wf(),
        ensures
            stopped == !(self@.forwards.contains_key(local@) && self@.forwards[local@].1
                == ticket),
    {
        self.forwards.stopped(local, ticket)
    }

    /// Forgets a forwarding rule whose listener has ended.
    pub fn forward_ended(&mut self, local: &str, ticket: u64)
        requires
            old(self).wf(),
        ensures
            final(self).wf(),
            final(self).next_ticket() == old(self).next_ticket(),
            final(self)@ == (Shared {
                forwards: if old(self)@.forwards.contains_key(local@)
                    && old(self)@.forwards[local@].1 == ticket {
                    old(self)@.forwards.remove(local@)
                } else {
                    old(self)@.forwards
                },
                ..old(self)@
            }),
    {
        self.forwards.finish(local, ticket)
    }

    /// Lists the forwarding rules.
    pub fn forward_routes(&self) -> (list: Vec<(String, String)>)
        requires
            self.wf(),
        ensures
            distinct(pair_texts(list@)),
            map_of(pair_texts(list@)) == self@.forwards.map_values(
                |rule: (Seq<char>, u64)| rule.0,
            ),
    {
        self.forwards.routes()
    }

    /// Removes a forwarding rule and says whether it was there.
    pub fn remove_forward(&mut self, local: &str) -> (removed: bool)
        requires
            old(self).wf(),
        ensures
            final(self).wf(),
            final(self).next_ticket() == old(self).next_ticket(),
            removed == old(self)@.forwards.contains_key(local@),
            final(self)@ == (Shared {
                forwards: old(self)@.forwards.remove(local@),
                ..old(self)@
            }),
    {
        self.forwards.remove(local)
    }

    /// Removes every forwarding rule and says how many there were.
    pub fn remove_all_forwards(&mut self) -> (count: usize)
        requires
            old(self).wf(),
        ensures
            final(self).wf(),
            final(self).next_ticket() == old(self).next_ticket(),
            old(self)@.forwards.dom().finite(),
            count == old(self)@.forwards.dom().len(),
            final(self)@ == (Shared {
                forwards: Map::<Seq<char>, (Seq<char>, u64)>::empty(),
                ..old(self)@
            }),
    {
        self.forwards.remove_all()
    }
}

/// What becomes of a device whose routes are all to be removed, over the outcomes
/// of asking for them; which routes were asked for; and the outcome, once there is
/// one.
pub open spec fn removal_run(
    shared: Shared,
    left: Seq<Seq<char>>,
    outcomes: Seq<Result<(), RustADBError<Seq<char>>>>,
) -> (Shared, Seq<Seq<char>>, Option<Result<(), RustADBError<Seq<char>>>>)
    decreases outcomes.len(),
{
    match removal_next(left) {
        RemovalStep::Finish(outcome) => (shared, seq![], Some(outcome)),
        RemovalStep::Ask(_) => if outcomes.len() == 0 {
            (shared, seq![], None)
        } else {
            let (after, next) = removal_told(shared, left, outcomes[0]);
            match next {
                RemovalStep::Finish(outcome) => (after, seq![left.last()], Some(outcome)),
                RemovalStep::Ask(rest) => {
                    let run = removal_run(after, rest, outcomes.drop_first());
                    (run.0, seq![left.last()] + run.1, run.2)
                },
            }
        },
    }
}

/// Removing every route asks the device for each of them once and leaves none. The
/// first that the device refuses ends it with the error of the device; that route
/// stays, and none is added.
pub proof fn all_routes_are_removed(
    shared: Shared,
    left: Seq<Seq<char>>,
    outcomes: Seq<Result<(), RustADBError<Seq<char>>>>,
)
    requires
        shared.board.alive,
        left.no_duplicates(),
        left.to_set() == shared.board.routes.dom(),
    ensures
        ({
            let (after, asked, outcome) = removal_run(shared, left, outcomes);
            &&& after.board.routes.submap_of(shared.board.routes)
            &&& outcome == Some(Ok::<(), RustADBError<Seq<char>>>(())) ==> {
                &&& after.board.routes == Map::<Seq<char>, Seq<char>>::empty()
                &&& asked.no_duplicates()
                &&& asked.to_set() == shared.board.routes.dom()
            }
            &&& outcome matches Some(Err(error)) ==> {
                &&& 0 < asked.len() <= outcomes.len()
                &&& outcomes[asked.len() - 1] == Err::<(), RustADBError<Seq<char>>>(error)
                &&& after.board.routes.contains_key(asked.last())
            }
        }),
{
    assert forall|i: int| 0 <= i < left.len() implies shared.board.routes.contains_key(
        #[trigger] left[i],
    ) by {
        assert(left.to_set().contains(left[i]));
    }
    lemma_removal(shared, left, outcomes);
    let (after, asked, outcome) = removal_run(shared, left, outcomes);
    if outcome == Some(Ok::<(), RustADBError<Seq<char>>>(())) {
        assert forall|key: Seq<char>| !after.board.routes.contains_key(key) by {
            if shared.board.routes.contains_key(key) {
                assert(left.to_set().contains(key));
            }
        }
        assert(after.board.routes =~= Map::<Seq<char>, Seq<char>>::empty());
        assert(asked == left.reverse());
        assert forall|key: Seq<char>| asked.to_set().contains(key) == left.to_set().contains(
            key,
        ) by {
            if left.contains(key) {
                let i = choose|i: int| 0 <= i < left.len() && left[i] == key;
                assert(asked[left.len() - 1 - i] == key);
            }
            if asked.contains(key) {
                let i = choose|i: int| 0 <= i < asked.len() && asked[i] == key;
                assert(left[left.len() - 1 - i] == key);
            }
        }
        assert(asked.to_set() =~= left.to_set());
    }
}

/// What is left after some routes were removed.
proof fn lemma_removal(
    shared: Shared,
    left: Seq<Seq<char>>,
    outcomes: Seq<Result<(), RustADBError<Seq<char>>>>,
)
    requires
        shared.board.alive,
        left.no_duplicates(),
        forall|i: int|
            0 <= i < left.len() ==> shared.board.routes.contains_key(#[trigger] left[i]),
    ensures
        ({
            let (after, asked, outcome) = removal_run(shared, left, outcomes);
            &&& after.board.routes.submap_of(shared.board.routes)
            &&& outcome == Some(Ok::<(), RustADBError<Seq<char>>>(())) ==> {
                &&& asked == left.reverse()
                &&& forall|key: Seq<char>| #[trigger]
                    after.board.routes.contains_key(key) == (shared.board.routes.contains_key(key)
                        && !left.contains(key))
            }
            &&& outcome matches Some(Err(error)) ==> {
                &&& 0 < asked.len() <= outcomes.len()
                &&& outcomes[asked.len() - 1] == Err::<(), RustADBError<Seq<char>>>(error)
                &&& after.board.routes.contains_key(asked.last())
            }
        }),
    decreases outcomes.len(),
{
    if left.len() > 0 && outcomes.len() > 0 && outcomes[0] is Ok {
        let rest = left.drop_last();
        let next = without_route(shared, left.last());
        assert forall|i: int| 0 <= i < rest.len() implies next.board.routes.contains_key(
            #[trigger] rest[i],
        ) by {
            assert(rest[i] == left[i]);
            assert(left[i] != left[left.len() - 1]);
        }
        lemma_removal(next, rest, outcomes.drop_first());
        let (after, asked, outcome) = removal_run(shared, left, outcomes);
        let run = removal_run(next, rest, outcomes.drop_first());
        if rest.len() == 0 {
            assert(run.1 =~= seq![]);
            assert(run.0 == next);
        }
        assert(asked =~= seq![left.last()] + run.1);
        assert(left.reverse() =~= seq![left.last()] + rest.reverse());
        assert forall|key: Seq<char>| left.contains(key) == (rest.contains(key) || key
            == left.last()) by {
            if left.contains(key) && key != left.last() {
                let i = choose|i: int| 0 <= i < left.len() && left[i] == key;
                assert(rest[i] == key);
            }
            if rest.contains(key) {
                let i = choose|i: int| 0 <= i < rest.len() && rest[i] == key;
                assert(left[i] == key);
            }
            assert(left[left.len() - 1] == left.last());
        }
        assert(after == run.0);
        assert(outcome == run.2);
        assert forall|key: Seq<char>| after.board.routes.contains_key(key) implies {
            &&& shared.board.routes.contains_key(key)
            &&& after.board.routes[key] == shared.board.routes[key]
        } by {
            assert(next.board.routes.contains_key(key));
            assert(after.board.routes[key] == next.board.routes[key]);
        }
        if let Some(Err(error)) = outcome {
            assert(asked.last() == run.1.last());
            assert(outcomes.drop_first()[run.1.len() - 1] == outcomes[asked.len() - 1]);
        }
    } else if left.len() == 0 {
        assert(left.reverse() =~= seq![]);
    } else if outcomes.len() > 0 {
        assert(left[left.len() - 1] == left.last());
    }
}

/// A reverse route is listed where the device grants it, under its host port, and
/// is not listed where the device refuses it; the other routes stay as they are. An
/// endpoint that is no host port changes nothing. What other sessions do meanwhile,
/// as long as they leave the routes alone, does not matter.
pub proof fn granted_routes_are_listed(
    before: Shared,
    asked: Shared,
    later: Shared,
    remote: Seq<char>,
    local: Seq<char>,
    opened: AdbResult<(Operation, ADBTransportMessage)>,
    said: Seq<Packet>,
)
    requires
        before.board.alive,
        reverse_begins(before, asked, remote, local, opened),
        later.board.alive,
        later.board.routes == asked.board.routes,
    ensures
        reverse_endpoint(local) is Err ==> opened is Err && asked == before,
        reverse_endpoint(local) is Ok && opened is Err ==> asked.board.routes
            == before.board.routes.remove(remote),
        opened is Ok ==> ({
            let progress = opened->Ok_0.0@;
            let outcome = answered(progress, said);
            let ended = reverse_settled(
                later,
                remote,
                outcome == Some(Ok::<(), RustADBError<Seq<char>>>(())),
            ).board.routes;
            &&& outcome == Some(Ok::<(), RustADBError<Seq<char>>>(())) <==> grants(
                progress.service.local_id,
                said,
            )
            &&& if grants(progress.service.local_id, said) {
                ended == before.board.routes.insert(remote, reverse_endpoint(local)->Ok_0)
            } else {
                ended == before.board.routes.remove(remote)
            }
        }),
{
    if opened is Ok {
        let progress = opened->Ok_0.0@;
        requests_succeed_where_granted(progress.service, said);
        let endpoint = reverse_endpoint(local)->Ok_0;
        assert(before.board.routes.insert(remote, endpoint).remove(remote)
            =~= before.board.routes.remove(remote));
    }
}

/// A reverse route is gone once the device grants its removal, and stays listed
/// where the device refuses; the other routes stay as they are.
pub proof fn refused_removals_change_nothing(
    before: Shared,
    asked: Shared,
    later: Shared,
    remote: Seq<char>,
    opened: AdbResult<(Operation, ADBTransportMessage)>,
    said: Seq<Packet>,
)
    requires
        before.board.alive,
        service_opened(
            before,
            asked,
            destination(ADBLocalCommand::ReverseRemove(remote)),
            Task::Collect,
            opened,
        ),
        later.board.alive,
        later.board.routes == asked.board.routes,
    ensures
        opened is Err ==> asked == before,
        opened is Ok ==> ({
            let progress = opened->Ok_0.0@;
            let outcome = answered(progress, said);
            let ended = if outcome == Some(Ok::<(), RustADBError<Seq<char>>>(())) {
                without_route(later, remote)
            } else {
                later
            };
            &&& outcome == Some(Ok::<(), RustADBError<Seq<char>>>(())) <==> grants(
                progress.service.local_id,
                said,
            )
            &&& ended.board.routes == if grants(progress.service.local_id, said) {
                before.board.routes.remove(remote)
            } else {
                before.board.routes
            }
        }),
{
    if opened is Ok {
        requests_succeed_where_granted(opened->Ok_0.0@.service, said);
    }
}

/// A route leads to any port of the host but zero.
pub proof fn routes_lead_to_ports(port: u16, other: Seq<char>)
    ensures
        reverse_endpoint("tcp:"@ + decimal(port as nat)) == if port > 0 {
            Ok::<Seq<char>, Seq<char>>("tcp:"@ + decimal(port as nat))
        } else {
            Err("reverse requires tcp:<port>"@)
        },
        !"tcp:"@.is_prefix_of(other) ==> reverse_endpoint(other) == Err::<Seq<char>, Seq<char>>(
            "reverse requires tcp:<port>"@,
        ),
{
    ports_stand_behind_their_protocol(port as nat, other);
}

/// A route that the device refuses is gone, the others stay, and one that it grants
/// stays.
pub proof fn refused_routes_are_gone(shared: Shared, remote: Seq<char>, other: Seq<char>)
    requires
        shared.board.alive,
        other != remote,
    ensures
        ({
            let refused = reverse_settled(shared, remote, false);
            &&& !refused.board.routes.contains_key(remote)
            &&& refused.board.routes.contains_key(other) == shared.board.routes.contains_key(other)
            &&& refused.board.routes.contains_key(other) ==> refused.board.routes[other]
                == shared.board.routes[other]
            &&& refused.board.sessions == shared.board.sessions
            &&& refused.forwards == shared.forwards
            &&& refused.board.alive
        }),
        reverse_settled(shared, remote, true) == shared,
{
}

/// A service is opened under the lowest number that no stream has, and nothing is
/// kept of it where its name is too long for a packet.
pub proof fn services_open_under_a_free_number(
    before: Shared,
    after: Shared,
    text: Seq<char>,
    task: Task<Seq<char>>,
    opened: AdbResult<(Operation, ADBTransportMessage)>,
    other: u32,
)
    requires
        service_opened(before, after, text, task, opened),
        before.board.alive,
        has_room(before.board.sessions),
    ensures
        after.board.routes == before.board.routes,
        after.forwards == before.forwards,
        opened is Ok <==> destination_bytes(text).len() <= u32::MAX,
        opened is Err ==> after == before,
        opened is Ok ==> ({
            let sent = opened->Ok_0.1@;
            &&& sent.command == MessageCommand::Open
            &&& sent.payload == destination_bytes(text)
            &&& 0 < sent.arg0
            &&& sent.arg1 == 0
            &&& !before.board.sessions.contains_key(sent.arg0)
            &&& after.board.sessions.contains_key(sent.arg0)
            &&& after.board.sessions[sent.arg0].len() == 0
            &&& opened->Ok_0.0@.service.local_id == sent.arg0
            &&& opened->Ok_0.0@.stage == Stage::<Seq<char>, Seq<u8>>::Opening(task)
            &&& other != sent.arg0 ==> after.board.sessions.contains_key(other)
                == before.board.sessions.contains_key(other)
            &&& 0 < other < sent.arg0 ==> before.board.sessions.contains_key(other)
        }),
{
    lemma_room(before.board.sessions);
}

/// The removal of all routes asks for each of them once, and for nothing where there
/// are none or the device is gone.
pub proof fn removals_name_each_route_once(
    shared: Shared,
    step: RemovalStep<Seq<Seq<char>>, Result<(), RustADBError<Seq<char>>>>,
    remote: Seq<char>,
)
    requires
        removal_begins(shared, step),
    ensures
        step is Ask ==> {
            &&& shared.board.alive
            &&& step->Ask_0.no_duplicates()
            &&& step->Ask_0.contains(remote) <==> shared.board.routes.contains_key(remote)
        },
        shared.board.alive && shared.board.routes.contains_key(remote) ==> step is Ask,
        step == RemovalStep::<Seq<Seq<char>>, Result<(), RustADBError<Seq<char>>>>::Finish(Ok(()))
            ==> !shared.board.routes.contains_key(remote),
        !shared.board.alive ==> step == RemovalStep::<
            Seq<Seq<char>>,
            Result<(), RustADBError<Seq<char>>>,
        >::Finish(Err(RustADBError::ADBRequestFailed("dispatcher stopped"@))),
{
    if step is Ask {
        assert(step->Ask_0.to_set().contains(remote) <==> step->Ask_0.contains(remote));
    }
}

} // verus!
