//! One reader for all the streams of a transport.
//!
//! A transport carries the packets of many services. The dispatcher gives each
//! packet to the session that its second argument names, and settles the
//! streams that the device opens by the configured reverse routes.

use crate::error::{failed, failure, AdbResult, RustADBError};
use crate::message::{bare, packets, ADBTransportMessage, MessageCommand, Packet};
use crate::table::{
    distinct, lemma_absent, lemma_empty, lemma_entry, lemma_push, lemma_remove, lemma_update,
    map_of,
};
use crate::text::{
    copy_text, decimal, decode_lossy, lossy, parse_tcp_port, ports_stand_behind_their_protocol,
    same_text, tcp_port, trim_zeros, without_zeros,
};
use vstd::prelude::*;

verus! {

/// The packets that wait for one session.
#[derive(Debug)]
struct Session {
    local_id: u32,
    queue: Vec<ADBTransportMessage>,
}

/// What the dispatcher knows: whether it runs, the packets that wait for each
/// session, and the host endpoint of each reverse route.
#[verifier::ext_equal]
pub ghost struct Board {
    /// Whether the transport is still read.
    pub alive: bool,
    /// The packets that wait for each session, by local identifier.
    pub sessions: Map<u32, Seq<Packet>>,
    /// The host endpoint of each remote endpoint.
    pub routes: Map<Seq<char>, Seq<char>>,
}

/// A dispatcher that stopped: a packet that closes it waits for every session,
/// behind what already waits for it.
pub open spec fn woken(board: Board) -> Board {
    Board {
        alive: false,
        sessions: Map::new(
            |id: u32| board.sessions.contains_key(id),
            |id: u32| board.sessions[id].push(bare(MessageCommand::Clse, 0, id)),
        ),
        routes: board.routes,
    }
}

/// What the failure of a read makes of a dispatcher: nothing where nothing came in
/// time, and the end otherwise.
pub open spec fn after_error(board: Board, error: RustADBError<Seq<char>>) -> Board {
    if error is TimedOut {
        board
    } else {
        woken(board)
    }
}

/// What became of a packet.
#[derive(Debug)]
pub enum Delivery<M> {
    /// It waits for the session with this identifier.
    Delivered(u32),
    /// No session has this identifier.
    Discarded(u32),
    /// The device opened a stream that a new session relays to a host port.
    Relay {
        /// The identifier of the new session.
        local_id: u32,
        /// The identifier of the device.
        remote_id: u32,
        /// The host port.
        port: u16,
    },
    /// The device opened a stream that nothing serves: the reply that closes it,
    /// and the packet.
    Refused {
        /// The reply.
        reply: M,
        /// The packet that asked for the stream.
        packet: M,
    },
    /// The device opened a stream whose route names no host port.
    Ignored,
}

impl Delivery<ADBTransportMessage> {
    /// What became of the packet, with what the packets say.
    pub open spec fn view(&self) -> Delivery<Packet> {
        match self {
            Delivery::Delivered(id) => Delivery::Delivered(*id),
            Delivery::Discarded(id) => Delivery::Discarded(*id),
            Delivery::Relay { local_id, remote_id, port } => Delivery::Relay {
                local_id: *local_id,
                remote_id: *remote_id,
                port: *port,
            },
            Delivery::Refused { reply, packet } => Delivery::Refused {
                reply: reply@,
                packet: packet@,
            },
            Delivery::Ignored => Delivery::Ignored,
        }
    }
}

/// Whether an identifier is the lowest that no session has.
pub open spec fn lowest_free(sessions: Map<u32, Seq<Packet>>, id: u32) -> bool {
    &&& 1 <= id < u32::MAX
    &&& !sessions.contains_key(id)
    &&& forall|other: u32| 1 <= other < id ==> sessions.contains_key(other)
}

/// Whether there is room for a new session.
pub open spec fn has_room(sessions: Map<u32, Seq<Packet>>) -> bool {
    exists|id: u32| 1 <= id < u32::MAX && !sessions.contains_key(id)
}

/// The identifier of the next session.
pub open spec fn next_id(sessions: Map<u32, Seq<Packet>>) -> u32 {
    choose|id: u32| lowest_free(sessions, id)
}

/// There is only one lowest free identifier.
proof fn lemma_next_id(sessions: Map<u32, Seq<Packet>>, id: u32)
    requires
        lowest_free(sessions, id),
    ensures
        next_id(sessions) == id,
{
    let other = next_id(sessions);
    assert(lowest_free(sessions, other));
    if other < id {
        assert(sessions.contains_key(other));
    }
    if id < other {
        assert(sessions.contains_key(id));
    }
}

/// The host endpoint of a destination. A device names either the remote
/// endpoint of a route or its host endpoint.
pub open spec fn route_for(routes: Map<Seq<char>, Seq<char>>, destination: Seq<char>) -> Option<
    Seq<char>,
> {
    if routes.contains_key(destination) {
        Some(routes[destination])
    } else if exists|remote: Seq<char>| #[trigger]
        routes.contains_key(remote) && routes[remote] == destination {
        Some(destination)
    } else {
        None
    }
}

/// What becomes of a packet.
pub open spec fn delivery(board: Board, packet: Packet) -> Delivery<Packet> {
    if packet.command == MessageCommand::Open {
        match route_for(board.routes, trim_zeros(lossy(packet.payload))) {
            Some(local) => match tcp_port(local) {
                Some(port) => Delivery::Relay {
                    local_id: next_id(board.sessions),
                    remote_id: packet.arg0,
                    port: port as u16,
                },
                None => Delivery::Ignored,
            },
            None => Delivery::Refused { reply: bare(MessageCommand::Clse, 0, packet.arg0), packet },
        }
    } else if board.sessions.contains_key(packet.arg1) {
        Delivery::Delivered(packet.arg1)
    } else {
        Delivery::Discarded(packet.arg1)
    }
}

/// The sessions after a packet.
pub open spec fn sessions_after(board: Board, packet: Packet) -> Map<u32, Seq<Packet>> {
    match delivery(board, packet) {
        Delivery::Delivered(id) => board.sessions.insert(id, board.sessions[id].push(packet)),
        Delivery::Relay { local_id, .. } => board.sessions.insert(local_id, seq![]),
        _ => board.sessions,
    }
}

/// The sessions as keyed entries.
spec fn session_entries(sessions: Seq<Session>) -> Seq<(u32, Seq<Packet>)> {
    sessions.map_values(|session: Session| (session.local_id, packets(session.queue@)))
}

/// The routes as keyed entries.
pub open spec fn route_entries(routes: Seq<(String, String)>) -> Seq<(Seq<char>, Seq<char>)> {
    routes.map_values(|route: (String, String)| (route.0@, route.1@))
}

/// The error of a stopped dispatcher.
pub open spec fn stopped() -> Seq<char> {
    "ADB packet dispatcher stopped"@
}

/// Owns the sole reader of a transport.
#[derive(Debug)]
pub struct TransportDispatcher {
    alive: bool,
    sessions: Vec<Session>,
    routes: Vec<(String, String)>,
}

impl TransportDispatcher {
    /// What the dispatcher knows.
    pub closed spec fn view(&self) -> Board {
        Board {
            alive: self.alive,
            sessions: map_of(session_entries(self.sessions@)),
            routes: map_of(route_entries(self.routes@)),
        }
    }

    /// No two sessions share an identifier, and no two routes a remote endpoint.
    pub closed spec fn wf(&self) -> bool {
        &&& distinct(session_entries(self.sessions@))
        &&& distinct(route_entries(self.routes@))
    }

    /// Starts to read, with no session and no route.
    pub fn start() -> (dispatcher: TransportDispatcher)
        ensures
            dispatcher.wf(),
            dispatcher@ == (Board { alive: true, sessions: Map::empty(), routes: Map::empty() }),
    {
        let dispatcher = TransportDispatcher {
            alive: true,
            sessions: Vec::new(),
            routes: Vec::new(),
        };
        proof {
            lemma_empty::<u32, Seq<Packet>>();
            lemma_empty::<Seq<char>, Seq<char>>();
            assert(session_entries(dispatcher.sessions@) =~= Seq::empty());
            assert(route_entries(dispatcher.routes@) =~= Seq::empty());
        }
        dispatcher
    }

    /// Whether the transport is still read.
    pub fn is_alive(&self) -> (alive: bool)
        ensures
            alive == self@.alive,
    {
        self.alive
    }

    /// Finds a session.
    fn find(&self, local_id: u32) -> (found: Option<usize>)
        requires
            self.wf(),
        ensures
            match found {
                Some(i) => {
                    &&& i < self.sessions@.len()
                    &&& self.sessions@[i as int].local_id == local_id
                    &&& self@.sessions.contains_key(local_id)
                    &&& self@.sessions[local_id] == packets(self.sessions@[i as int].queue@)
                },
                None => {
                    &&& !self@.sessions.contains_key(local_id)
                    &&& forall|i: int|
                        0 <= i < self.sessions@.len() ==> (#[trigger] self.sessions@[i]).local_id
                            != local_id
                },
            },
    {
        let ghost entries = session_entries(self.sessions@);
        let mut i: usize = 0;
        while i < self.sessions.len()
            invariant
                self.wf(),
                entries == session_entries(self.sessions@),
                i <= self.sessions@.len(),
                forall|j: int|
                    0 <= j < i ==> (#[trigger] self.sessions@[j]).local_id != local_id,
            decreases self.sessions@.len() - i,
        {
            if self.sessions[i].local_id == local_id {
                proof {
                    lemma_entry(entries, i as int);
                }
                return Some(i);
            }
            i = i + 1;
        }
        proof {
            lemma_absent(entries, local_id);
        }
        None
    }

    /// The lowest identifier that no session has, if there is one.
    pub fn free_id(&self) -> (id: Option<u32>)
        requires
            self.wf(),
        ensures
            match id {
                Some(id) => lowest_free(self@.sessions, id) && id == next_id(self@.sessions)
                    && has_room(self@.sessions),
                None => !has_room(self@.sessions),
            },
    {
        let mut id: u32 = 1;
        while id < u32::MAX
            invariant
                self.wf(),
                1 <= id,
                forall|other: u32| 1 <= other < id ==> self@.sessions.contains_key(other),
            decreases u32::MAX - id,
        {
            if self.find(id).is_none() {
                proof {
                    assert(lowest_free(self@.sessions, id));
                    lemma_next_id(self@.sessions, id);
                }
                return Some(id);
            }
            id = id + 1;
        }
        None
    }

    /// Registers a session with a given identifier. A session that had it loses
    /// its packets.
    pub fn register(&mut self, local_id: u32) -> (registered: AdbResult<()>)
        requires
            old(self).wf(),
        ensures
            final(self).wf(),
            if old(self)@.alive {
                &&& registered is Ok
                &&& final(self)@ == (Board {
                    sessions: old(self)@.sessions.insert(local_id, seq![]),
                    ..old(self)@
                })
            } else {
                failed(registered, stopped()) && *final(self) == *old(self)
            },
    {
        if !self.alive {
            return Err(failure("ADB packet dispatcher stopped"));
        }
        self.insert(local_id);
        Ok(())
    }

    /// Adds an empty session, or empties the one with that identifier.
    fn insert(&mut self, local_id: u32)
        requires
            old(self).wf(),
        ensures
            final(self).wf(),
            final(self)@ == (Board {
                sessions: old(self)@.sessions.insert(local_id, seq![]),
                ..old(self)@
            }),
    {
        let ghost entries = session_entries(self.sessions@);
        let session = Session { local_id, queue: Vec::new() };
        assert(packets(session.queue@) =~= seq![]);
        match self.find(local_id) {
            Some(i) => {
                proof {
                    lemma_update(entries, i as int, Seq::<Packet>::empty());
                }
                self.sessions.set(i, session);
                assert(session_entries(self.sessions@) =~= entries.update(
                    i as int,
                    (local_id, seq![]),
                ));
            },
            None => {
                proof {
                    lemma_push(entries, local_id, Seq::<Packet>::empty());
                }
                self.sessions.push(session);
                assert(session_entries(self.sessions@) =~= entries.push((local_id, seq![])));
            },
        }
    }

    /// Ends a session.
    pub fn unregister(&mut self, local_id: u32)
        requires
            old(self).wf(),
        ensures
            final(self).wf(),
            final(self)@ == (Board {
                sessions: old(self)@.sessions.remove(local_id),
                ..old(self)@
            }),
    {
        let ghost entries = session_entries(self.sessions@);
        match self.find(local_id) {
            Some(i) => {
                proof {
                    lemma_remove(entries, i as int);
                }
                let _ = self.sessions.remove(i);
                assert(session_entries(self.sessions@) =~= entries.remove(i as int));
            },
            None => {
                assert(self@.sessions.remove(local_id) =~= self@.sessions);
            },
        }
    }

    /// Takes the oldest packet that waits for a session. Nothing is there while
    /// the device is silent; a session that can get no more packets fails.
    pub fn receive(&mut self, local_id: u32) -> (packet: AdbResult<Option<ADBTransportMessage>>)
        requires
            old(self).wf(),
        ensures
            final(self).wf(),
            if old(self)@.sessions.contains_key(local_id)
                && old(self)@.sessions[local_id].len() > 0 {
                let queue = old(self)@.sessions[local_id];
                &&& packet is Ok
                &&& packet->Ok_0 is Some
                &&& packet->Ok_0->0@ == queue[0]
                &&& final(self)@ == (Board {
                    sessions: old(self)@.sessions.insert(local_id, queue.drop_first()),
                    ..old(self)@
                })
            } else {
                &&& *final(self) == *old(self)
                &&& if old(self)@.alive && old(self)@.sessions.contains_key(local_id) {
                    packet is Ok && packet->Ok_0 is None
                } else {
                    failed(packet, stopped())
                }
            },
    {
        let ghost entries = session_entries(self.sessions@);
        match self.find(local_id) {
            Some(i) => {
                if self.sessions[i].queue.len() > 0 {
                    let ghost queue = self.sessions@[i as int].queue@;
                    let packet = self.sessions[i].queue.remove(0);
                    proof {
                        lemma_update(entries, i as int, packets(queue).drop_first());
                        assert(packets(self.sessions@[i as int].queue@) =~= packets(
                            queue,
                        ).drop_first());
                        assert(session_entries(self.sessions@) =~= entries.update(
                            i as int,
                            (local_id, packets(queue).drop_first()),
                        ));
                    }
                    Ok(Some(packet))
                } else if self.alive {
                    Ok(None)
                } else {
                    Err(failure("ADB packet dispatcher stopped"))
                }
            },
            None => Err(failure("ADB packet dispatcher stopped")),
        }
    }

    /// Whether packets can still be written.
    pub fn check_write(&self) -> (checked: AdbResult<()>)
        ensures
            if self@.alive {
                checked is Ok
            } else {
                failed(checked, stopped())
            },
    {
        if self.alive {
            Ok(())
        } else {
            Err(failure("ADB packet dispatcher stopped"))
        }
    }

    /// Finds a route.
    fn find_route(&self, remote: &str) -> (found: Option<usize>)
        requires
            self.wf(),
        ensures
            match found {
                Some(i) => {
                    &&& i < self.routes@.len()
                    &&& self.routes@[i as int].0@ == remote@
                    &&& self@.routes.contains_key(remote@)
                    &&& self@.routes[remote@] == self.routes@[i as int].1@
                },
                None => {
                    &&& !self@.routes.contains_key(remote@)
                    &&& forall|i: int|
                        0 <= i < self.routes@.len() ==> (#[trigger] self.routes@[i]).0@ != remote@
                },
            },
    {
        let ghost entries = route_entries(self.routes@);
        let mut i: usize = 0;
        while i < self.routes.len()
            invariant
                self.wf(),
                entries == route_entries(self.routes@),
                i <= self.routes@.len(),
                forall|j: int| 0 <= j < i ==> (#[trigger] self.routes@[j]).0@ != remote@,
            decreases self.routes@.len() - i,
        {
            if same_text(&self.routes[i].0, remote) {
                proof {
                    lemma_entry(entries, i as int);
                }
                return Some(i);
            }
            i = i + 1;
        }
        proof {
            lemma_absent(entries, remote@);
        }
        None
    }

    /// Sets the host endpoint of a remote endpoint, or removes it.
    pub fn set_route(&mut self, remote: &str, local: Option<String>) -> (set: AdbResult<()>)
        requires
            old(self).wf(),
        ensures
            final(self).wf(),
            if old(self)@.alive {
                &&& set is Ok
                &&& final(self)@ == (Board {
                    routes: match local {
                        Some(local) => old(self)@.routes.insert(remote@, local@),
                        None => old(self)@.routes.remove(remote@),
                    },
                    ..old(self)@
                })
            } else {
                failed(set, "dispatcher stopped"@) && *final(self) == *old(self)
            },
    {
        if !self.alive {
            return Err(failure("dispatcher stopped"));
        }
        let ghost entries = route_entries(self.routes@);
        match (self.find_route(remote), local) {
            (Some(i), Some(local)) => {
                let ghost host = local@;
                proof {
                    lemma_update(entries, i as int, host);
                }
                self.routes.set(i, (copy_text(remote), local));
                assert(route_entries(self.routes@) =~= entries.update(i as int, (remote@, host)));
            },
            (None, Some(local)) => {
                let ghost host = local@;
                proof {
                    lemma_push(entries, remote@, host);
                }
                self.routes.push((copy_text(remote), local));
                assert(route_entries(self.routes@) =~= entries.push((remote@, host)));
            },
            (Some(i), None) => {
                proof {
                    lemma_remove(entries, i as int);
                }
                let _ = self.routes.remove(i);
                assert(route_entries(self.routes@) =~= entries.remove(i as int));
            },
            (None, None) => {
                assert(self@.routes.remove(remote@) =~= self@.routes);
            },
        }
        Ok(())
    }

    /// Lists the routes, each once.
    pub fn routes(&self) -> (routes: AdbResult<Vec<(String, String)>>)
        requires
            self.wf(),
        ensures
            if self@.alive {
                &&& routes is Ok
                &&& distinct(route_entries(routes->Ok_0@))
                &&& map_of(route_entries(routes->Ok_0@)) == self@.routes
            } else {
                failed(routes, "dispatcher stopped"@)
            },
    {
        if !self.alive {
            return Err(failure("dispatcher stopped"));
        }
        let mut list: Vec<(String, String)> = Vec::new();
        let mut i: usize = 0;
        while i < self.routes.len()
            invariant
                i <= self.routes@.len(),
                route_entries(list@) =~= route_entries(self.routes@).take(i as int),
            decreases self.routes@.len() - i,
        {
            let ghost before = route_entries(list@);
            let route = (copy_text(&self.routes[i].0), copy_text(&self.routes[i].1));
            let ghost entry = (route.0@, route.1@);
            list.push(route);
            assert(route_entries(list@) =~= before.push(entry));
            assert(route_entries(self.routes@)[i as int] == entry);
            i = i + 1;
        }
        assert(route_entries(list@) =~= route_entries(self.routes@));
        Ok(list)
    }

    /// Finds the host endpoint of a destination that a device opens.
    fn host_endpoint(&self, destination: &str) -> (local: Option<String>)
        requires
            self.wf(),
        ensures
            match local {
                Some(local) => route_for(self@.routes, destination@) == Some(local@),
                None => route_for(self@.routes, destination@) is None,
            },
    {
        if let Some(i) = self.find_route(destination) {
            return Some(copy_text(&self.routes[i].1));
        }
        let ghost entries = route_entries(self.routes@);
        let mut i: usize = 0;
        while i < self.routes.len()
            invariant
                self.wf(),
                entries == route_entries(self.routes@),
                i <= self.routes@.len(),
                !self@.routes.contains_key(destination@),
                forall|j: int| 0 <= j < i ==> (#[trigger] self.routes@[j]).1@ != destination@,
            decreases self.routes@.len() - i,
        {
            if same_text(&self.routes[i].1, destination) {
                proof {
                    lemma_entry(entries, i as int);
                    assert(self@.routes.contains_key(self.routes@[i as int].0@));
                }
                return Some(copy_text(destination));
            }
            i = i + 1;
        }
        proof {
            assert forall|remote: Seq<char>| #[trigger]
                self@.routes.contains_key(remote) implies self@.routes[remote] != destination@ by {
                let p = crate::table::place(entries, remote);
                lemma_entry(entries, p);
                assert(self.routes@[p].1@ != destination@);
            }
        }
        None
    }

    /// Gives a packet to the session it is for. A stream that the device opens
    /// gets a session of its own where a route names a host port.
    pub fn on_packet(&mut self, packet: ADBTransportMessage) -> (became: Delivery<
        ADBTransportMessage,
    >)
        requires
            old(self).wf(),
            packet.header.command == MessageCommand::Open ==> has_room(old(self)@.sessions),
        ensures
            final(self).wf(),
            became@ == delivery(old(self)@, packet@),
            final(self)@ == (Board {
                sessions: sessions_after(old(self)@, packet@),
                ..old(self)@
            }),
    {
        if packet.header.command == MessageCommand::Open {
            let destination = without_zeros(&decode_lossy(&packet.payload));
            match self.host_endpoint(&destination) {
                Some(local) => match parse_tcp_port(&local) {
                    Some(port) => {
                        let local_id: u32 = match self.free_id() {
                            Some(id) => id,
                            None => 0,
                        };
                        self.insert(local_id);
                        Delivery::Relay { local_id, remote_id: packet.header.arg0, port }
                    },
                    None => Delivery::Ignored,
                },
                None => Delivery::Refused {
                    reply: ADBTransportMessage::bare(MessageCommand::Clse, 0, packet.header.arg0),
                    packet,
                },
            }
        } else {
            let local_id: u32 = packet.header.arg1;
            match self.find(local_id) {
                Some(i) => {
                    let ghost entries = session_entries(self.sessions@);
                    let ghost queue = self.sessions@[i as int].queue@;
                    let ghost said = packet@;
                    self.sessions[i].queue.push(packet);
                    proof {
                        lemma_update(entries, i as int, packets(queue).push(said));
                        assert(packets(self.sessions@[i as int].queue@) =~= packets(queue).push(
                            said,
                        ));
                        assert(session_entries(self.sessions@) =~= entries.update(
                            i as int,
                            (local_id, packets(queue).push(said)),
                        ));
                    }
                    Delivery::Delivered(local_id)
                },
                None => Delivery::Discarded(local_id),
            }
        }
    }

    /// Takes the failure of a read, and says whether the transport is read on: a read
    /// in which nothing came in time is made again, and any other failure stops the
    /// dispatcher and wakes every session.
    pub fn on_error(&mut self, error: &RustADBError<String>) -> (goes_on: bool)
        requires
            old(self).wf(),
        ensures
            final(self).wf(),
            goes_on == (*error is TimedOut),
            final(self)@ == after_error(old(self)@, error@),
    {
        if error.timed_out() {
            return true;
        }
        self.stop();
        false
    }

    /// Stops, and wakes every session with a packet that closes it.
    fn stop(&mut self)
        requires
            old(self).wf(),
        ensures
            final(self).wf(),
            final(self)@ == woken(old(self)@),
    {
        let ghost before = session_entries(self.sessions@);
        let ghost board = self@;
        let ghost routes = self.routes@;
        self.alive = false;
        let mut i: usize = 0;
        while i < self.sessions.len()
            invariant
                i <= self.sessions@.len(),
                !self.alive,
                self.routes@ == routes,
                before.len() == self.sessions@.len(),
                forall|j: int|
                    0 <= j < before.len() ==> (#[trigger] session_entries(self.sessions@)[j]) == (
                        before[j].0,
                        if j < i {
                            before[j].1.push(bare(MessageCommand::Clse, 0, before[j].0))
                        } else {
                            before[j].1
                        },
                    ),
            decreases self.sessions@.len() - i,
        {
            assert(session_entries(self.sessions@)[i as int].0 == before[i as int].0);
            let local_id: u32 = self.sessions[i].local_id;
            let ghost queue = self.sessions@[i as int].queue@;
            let close = ADBTransportMessage::bare(MessageCommand::Clse, 0, local_id);
            let ghost said = close@;
            let ghost now = session_entries(self.sessions@);
            self.sessions[i].queue.push(close);
            assert(packets(self.sessions@[i as int].queue@) =~= packets(queue).push(said));
            assert(session_entries(self.sessions@) =~= now.update(
                i as int,
                (local_id, packets(queue).push(said)),
            ));
            i = i + 1;
        }
        proof {
            let after = session_entries(self.sessions@);
            assert(distinct(after));
            assert forall|id: u32| self@.sessions.contains_key(id) == board.sessions.contains_key(
                id,
            ) by {
                if self@.sessions.contains_key(id) {
                    let p = crate::table::place(after, id);
                    lemma_entry(before, p);
                }
                if board.sessions.contains_key(id) {
                    let p = crate::table::place(before, id);
                    lemma_entry(after, p);
                }
            }
            assert forall|id: u32| #[trigger]
                self@.sessions.contains_key(id) implies self@.sessions[id]
                == board.sessions[id].push(bare(MessageCommand::Clse, 0, id)) by {
                let p = crate::table::place(after, id);
                lemma_entry(before, p);
                lemma_entry(after, p);
            }
            assert(self@.sessions =~= woken(board).sessions);
        }
    }

    /// Stops the dispatcher.
    pub fn shutdown(&mut self)
        requires
            old(self).wf(),
        ensures
            final(self).wf(),
            final(self)@ == (Board { alive: false, ..old(self)@ }),
    {
        self.alive = false;
    }
}

/// A packet that opens no stream reaches the session that it names and no other;
/// without such a session it reaches none.
pub proof fn packets_reach_their_session(board: Board, packet: Packet, other: u32)
    requires
        packet.command != MessageCommand::Open,
    ensures
        sessions_after(board, packet).dom() == board.sessions.dom(),
        board.sessions.contains_key(packet.arg1) ==> sessions_after(board, packet)[packet.arg1]
            == board.sessions[packet.arg1].push(packet),
        other != packet.arg1 ==> sessions_after(board, packet)[other] == board.sessions[other],
        !board.sessions.contains_key(packet.arg1) ==> sessions_after(board, packet)
            == board.sessions,
{
    assert(sessions_after(board, packet).dom() =~= board.sessions.dom());
}

/// A stream that the device opens touches no session that exists.
pub proof fn opened_streams_are_separate(board: Board, packet: Packet, other: u32)
    requires
        packet.command == MessageCommand::Open,
        has_room(board.sessions),
        board.sessions.contains_key(other),
    ensures
        sessions_after(board, packet).contains_key(other),
        sessions_after(board, packet)[other] == board.sessions[other],
{
    lemma_room(board.sessions);
}

/// Where there is room there is a lowest free identifier.
pub proof fn lemma_room(sessions: Map<u32, Seq<Packet>>)
    requires
        has_room(sessions),
    ensures
        lowest_free(sessions, next_id(sessions)),
{
    let id = choose|id: u32| 1 <= id < u32::MAX && !sessions.contains_key(id);
    lemma_lowest(sessions, id);
    let lowest = choose|lowest: u32| lowest_free(sessions, lowest);
    lemma_next_id(sessions, lowest);
}

/// Below a free identifier lies the lowest free one.
proof fn lemma_lowest(sessions: Map<u32, Seq<Packet>>, id: u32)
    requires
        1 <= id < u32::MAX,
        !sessions.contains_key(id),
    ensures
        exists|lowest: u32| lowest_free(sessions, lowest),
    decreases id,
{
    if exists|other: u32| 1 <= other < id && !sessions.contains_key(other) {
        let other = choose|other: u32| 1 <= other < id && !sessions.contains_key(other);
        lemma_lowest(sessions, other);
    } else {
        assert(lowest_free(sessions, id));
    }
}

/// A destination that names the remote endpoint of a route, or else its host
/// endpoint, leads to the host endpoint.
pub proof fn routes_serve_both_names(
    routes: Map<Seq<char>, Seq<char>>,
    remote: Seq<char>,
    local: Seq<char>,
)
    ensures
        route_for(routes.insert(remote, local), remote) == Some(local),
        !routes.insert(remote, local).contains_key(local) ==> route_for(
            routes.insert(remote, local),
            local,
        ) == Some(local),
{
    assert(routes.insert(remote, local).contains_key(remote));
}

/// A stream that the device opens to a routed name is relayed to the port of the
/// host that the route was set to, under a number that no stream has.
pub proof fn opened_streams_go_to_their_port(
    board: Board,
    packet: Packet,
    remote: Seq<char>,
    port: u16,
)
    requires
        packet.command == MessageCommand::Open,
        trim_zeros(lossy(packet.payload)) == remote,
        board.routes.contains_key(remote),
        board.routes[remote] == "tcp:"@ + decimal(port as nat),
        has_room(board.sessions),
    ensures
        match delivery(board, packet) {
            Delivery::Relay { local_id, remote_id, port: reached } => {
                &&& reached == port
                &&& remote_id == packet.arg0
                &&& 0 < local_id
                &&& !board.sessions.contains_key(local_id)
                &&& forall|lower: u32|
                    0 < lower < local_id ==> #[trigger] board.sessions.contains_key(lower)
                &&& sessions_after(board, packet) == board.sessions.insert(local_id, seq![])
            },
            _ => false,
        },
{
    lemma_room(board.sessions);
    ports_stand_behind_their_protocol(port as nat, remote);
}

/// A stream to a name that no route has at either end is refused: its opener is told
/// that it is closed, and nothing changes.
pub proof fn other_streams_are_refused(board: Board, packet: Packet, asked: Seq<char>)
    requires
        packet.command == MessageCommand::Open,
        trim_zeros(lossy(packet.payload)) == asked,
        forall|remote: Seq<char>| #[trigger]
            board.routes.contains_key(remote) ==> remote != asked && board.routes[remote] != asked,
    ensures
        match delivery(board, packet) {
            Delivery::Refused { reply, packet: refused } => {
                &&& reply.command == MessageCommand::Clse
                &&& reply.arg0 == 0
                &&& reply.arg1 == packet.arg0
                &&& reply.payload.len() == 0
                &&& refused == packet
            },
            _ => false,
        },
        sessions_after(board, packet) == board.sessions,
{
}

/// An error other than an expired wait stops everything: nothing is opened any more,
/// and each stream is told at its end that it is closed.
pub proof fn errors_close_every_stream(board: Board, error: RustADBError<Seq<char>>, id: u32)
    requires
        !(error is TimedOut),
    ensures
        ({
            let after = after_error(board, error);
            &&& !after.alive
            &&& after.routes == board.routes
            &&& after.sessions.contains_key(id) == board.sessions.contains_key(id)
            &&& board.sessions.contains_key(id) ==> {
                &&& after.sessions[id].len() == board.sessions[id].len() + 1
                &&& after.sessions[id].drop_last() == board.sessions[id]
                &&& after.sessions[id].last().command == MessageCommand::Clse
                &&& after.sessions[id].last().arg1 == id
            }
        }),
{
    let closing = bare(MessageCommand::Clse, 0, id);
    assert(board.sessions[id].push(closing).drop_last() =~= board.sessions[id]);
}

/// A wait that expires changes nothing.
pub proof fn waits_may_expire(board: Board, message: Seq<char>)
    ensures
        after_error(board, RustADBError::TimedOut(message)) == board,
{
}

/// What is left of a board that stopped says so.
pub proof fn stopped_boards_say_so()
    ensures
        stopped() == "ADB packet dispatcher stopped"@,
{
}

} // verus!
