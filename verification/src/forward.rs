//! Port forwarding: the table of rules, and the connections that they carry.

use crate::bytes::push_bytes;
use crate::error::{failed, failure, AdbResult, RustADBError};
use crate::message::{bare, packet, ADBTransportMessage, MessageCommand, Packet};
use crate::operation::{ends, put_out, puts, silent};
use crate::service::{
    carries, close, fails, okay, Action, Answer, DispatchedService, Outcome, Step,
};
use crate::table::{
    distinct, lemma_absent, lemma_empty, lemma_entry, lemma_push, lemma_remove, map_of, place,
};
use crate::text::{
    copy_text, decimal, parse_tcp_port, ports_stand_behind_their_protocol, same_text, tcp_port,
};
use vstd::prelude::*;
use vstd::utf8::*;

verus! {

/// A rule: a host endpoint, the device endpoint behind it, and a number that
/// tells it from earlier rules on the same endpoint.
#[derive(Debug)]
struct Rule {
    local: String,
    remote: String,
    ticket: u64,
}

/// The rules as keyed entries.
spec fn rule_entries(rules: Seq<Rule>) -> Seq<(Seq<char>, (Seq<char>, u64))> {
    rules.map_values(|rule: Rule| (rule.local@, (rule.remote@, rule.ticket)))
}

/// The contents of a list of pairs of strings.
pub open spec fn pair_texts(list: Seq<(String, String)>) -> Seq<(Seq<char>, Seq<char>)> {
    list.map_values(|pair: (String, String)| (pair.0@, pair.1@))
}

/// The forwarding rules of a connection.
#[derive(Debug)]
pub struct ForwardTable {
    rules: Vec<Rule>,
    next: u64,
}

/// The host endpoint of a rule, checked: a port that is not zero and that no
/// rule uses.
pub open spec fn forward_port(
    rules: Map<Seq<char>, (Seq<char>, u64)>,
    local: Seq<char>,
) -> Result<nat, Seq<char>> {
    match tcp_port(local) {
        None => Err("forward requires tcp:<port>"@),
        Some(port) => if port == 0 || rules.contains_key(local) {
            Err("forward requires an unused nonzero TCP port"@)
        } else {
            Ok(port)
        },
    }
}

impl ForwardTable {
    /// The device endpoint and the ticket of each host endpoint.
    pub closed spec fn view(&self) -> Map<Seq<char>, (Seq<char>, u64)> {
        map_of(rule_entries(self.rules@))
    }

    /// The ticket of the next rule.
    pub closed spec fn next(&self) -> u64 {
        self.next
    }

    /// No two rules share a host endpoint, and tickets are not used twice.
    pub closed spec fn wf(&self) -> bool {
        &&& distinct(rule_entries(self.rules@))
        &&& forall|i: int|
            0 <= i < self.rules@.len() ==> (#[trigger] self.rules@[i]).ticket < self.next
    }

    /// Whether another rule can be told from those that there were.
    pub fn has_ticket(&self) -> (has: bool)
        ensures
            has == (self.next() < u64::MAX),
    {
        self.next < u64::MAX
    }

    /// A table without rules.
    pub fn new() -> (table: ForwardTable)
        ensures
            table.wf(),
            table@ == Map::<Seq<char>, (Seq<char>, u64)>::empty(),
            table.next() == 0,
    {
        let table = ForwardTable { rules: Vec::new(), next: 0 };
        proof {
            lemma_empty::<Seq<char>, (Seq<char>, u64)>();
            assert(rule_entries(table.rules@) =~= Seq::empty());
        }
        table
    }

    /// Finds a rule.
    fn find(&self, local: &str) -> (found: Option<usize>)
        requires
            self.wf(),
        ensures
            match found {
                Some(i) => {
                    &&& i < self.rules@.len()
                    &&& self.rules@[i as int].local@ == local@
                    &&& self@.contains_key(local@)
                    &&& self@[local@] == (
                        self.rules@[i as int].remote@,
                        self.rules@[i as int].ticket,
                    )
                },
                None => {
                    &&& !self@.contains_key(local@)
                    &&& forall|i: int|
                        0 <= i < self.rules@.len() ==> (#[trigger] self.rules@[i]).local@ != local@
                },
            },
    {
        let ghost entries = rule_entries(self.rules@);
        let mut i: usize = 0;
        while i < self.rules.len()
            invariant
                self.wf(),
                entries == rule_entries(self.rules@),
                i <= self.rules@.len(),
                forall|j: int| 0 <= j < i ==> (#[trigger] self.rules@[j]).local@ != local@,
            decreases self.rules@.len() - i,
        {
            if same_text(&self.rules[i].local, local) {
                proof {
                    lemma_entry(entries, i as int);
                }
                return Some(i);
            }
            i = i + 1;
        }
        proof {
            lemma_absent(entries, local@);
        }
        None
    }

    /// The port that a new rule listens on.
    pub fn check(&self, local: &str) -> (port: AdbResult<u16>)
        requires
            self.wf(),
        ensures
            match forward_port(self@, local@) {
                Ok(number) => port is Ok && port->Ok_0 == number,
                Err(message) => failed(port, message),
            },
    {
        match parse_tcp_port(local) {
            None => Err(failure("forward requires tcp:<port>")),
            Some(port) => if port == 0 || self.find(local).is_some() {
                Err(failure("forward requires an unused nonzero TCP port"))
            } else {
                Ok(port)
            },
        }
    }

    /// Adds a rule whose listener is bound, and gives its ticket.
    pub fn insert(&mut self, local: &str, remote: &str) -> (ticket: AdbResult<u64>)
        requires
            old(self).wf(),
            old(self).next() < u64::MAX,
        ensures
            final(self).wf(),
            match forward_port(old(self)@, local@) {
                Ok(_) => {
                    &&& ticket is Ok
                    &&& ticket->Ok_0 == old(self).next()
                    &&& final(self).next() == old(self).next() + 1
                    &&& final(self)@ == old(self)@.insert(local@, (remote@, ticket->Ok_0))
                },
                Err(message) => failed(ticket, message) && *final(self) == *old(self),
            },
    {
        match self.check(local) {
            Err(error) => return Err(error),
            Ok(_) => {},
        }
        let ghost entries = rule_entries(self.rules@);
        let found = self.find(local);
        let ticket: u64 = self.next;
        proof {
            lemma_push(entries, local@, (remote@, ticket));
        }
        let rule = Rule { local: copy_text(local), remote: copy_text(remote), ticket };
        self.rules.push(rule);
        self.next = ticket + 1;
        assert(rule_entries(self.rules@) =~= entries.push((local@, (remote@, ticket))));
        Ok(ticket)
    }

    /// Whether a rule was removed since its ticket was given.
    pub fn stopped(&self, local: &str, ticket: u64) -> (stopped: bool)
        requires
            self.wf(),
        ensures
            stopped == !(self@.contains_key(local@) && self@[local@].1 == ticket),
    {
        match self.find(local) {
            Some(i) => self.rules[i].ticket != ticket,
            None => true,
        }
    }

    /// Removes the rule at a place.
    fn remove_at(&mut self, i: usize)
        requires
            old(self).wf(),
            i < old(self).rules@.len(),
        ensures
            final(self).wf(),
            final(self).next() == old(self).next(),
            final(self)@ == old(self)@.remove(old(self).rules@[i as int].local@),
    {
        let ghost entries = rule_entries(self.rules@);
        let ghost before = self.rules@;
        proof {
            lemma_remove(entries, i as int);
        }
        let _ = self.rules.remove(i);
        proof {
            assert(rule_entries(self.rules@) =~= entries.remove(i as int));
            assert forall|j: int| 0 <= j < self.rules@.len() implies (
            #[trigger] self.rules@[j]).ticket < self.next by {
                if j < i {
                    assert(self.rules@[j] == before[j]);
                } else {
                    assert(self.rules@[j] == before[j + 1]);
                }
            }
        }
    }

    /// Forgets a rule whose listener has ended, unless another rule has taken
    /// its endpoint.
    pub fn finish(&mut self, local: &str, ticket: u64)
        requires
            old(self).wf(),
        ensures
            final(self).wf(),
            final(self).next() == old(self).next(),
            final(self)@ == if old(self)@.contains_key(local@) && old(self)@[local@].1 == ticket {
                old(self)@.remove(local@)
            } else {
                old(self)@
            },
    {
        if let Some(i) = self.find(local) {
            if self.rules[i].ticket == ticket {
                self.remove_at(i);
            }
        }
    }

    /// Lists the rules, each once.
    pub fn routes(&self) -> (list: Vec<(String, String)>)
        requires
            self.wf(),
        ensures
            distinct(pair_texts(list@)),
            map_of(pair_texts(list@)) == self@.map_values(|rule: (Seq<char>, u64)| rule.0),
    {
        let ghost entries = rule_entries(self.rules@);
        let mut list: Vec<(String, String)> = Vec::new();
        let mut i: usize = 0;
        while i < self.rules.len()
            invariant
                i <= self.rules@.len(),
                entries == rule_entries(self.rules@),
                list@.len() == i,
                forall|j: int|
                    0 <= j < i ==> (#[trigger] pair_texts(list@)[j]) == (
                        entries[j].0,
                        entries[j].1.0,
                    ),
            decreases self.rules@.len() - i,
        {
            let pair = (copy_text(&self.rules[i].local), copy_text(&self.rules[i].remote));
            let ghost texts = (pair.0@, pair.1@);
            let ghost before = pair_texts(list@);
            list.push(pair);
            assert(pair_texts(list@) =~= before.push(texts));
            assert(entries[i as int].0 == texts.0);
            assert(entries[i as int].1.0 == texts.1);
            i = i + 1;
        }
        proof {
            let pairs = pair_texts(list@);
            let remotes = self@.map_values(|rule: (Seq<char>, u64)| rule.0);
            assert(distinct(pairs));
            assert forall|key: Seq<char>| map_of(pairs).contains_key(key)
                == remotes.contains_key(key) by {
                if map_of(pairs).contains_key(key) {
                    lemma_entry(entries, place(pairs, key));
                }
                if remotes.contains_key(key) {
                    lemma_entry(pairs, place(entries, key));
                }
            }
            assert forall|key: Seq<char>| map_of(pairs).contains_key(key) implies map_of(pairs)[key]
                == remotes[key] by {
                lemma_entry(entries, place(pairs, key));
                lemma_entry(pairs, place(pairs, key));
            }
            assert(map_of(pairs) =~= remotes);
        }
        list
    }

    /// Removes a rule and says whether it was there.
    pub fn remove(&mut self, local: &str) -> (removed: bool)
        requires
            old(self).wf(),
        ensures
            final(self).wf(),
            final(self).next() == old(self).next(),
            removed == old(self)@.contains_key(local@),
            final(self)@ == old(self)@.remove(local@),
    {
        match self.find(local) {
            Some(i) => {
                self.remove_at(i);
                true
            },
            None => {
                assert(self@.remove(local@) =~= self@);
                false
            },
        }
    }

    /// Removes every rule and says how many there were.
    pub fn remove_all(&mut self) -> (count: usize)
        requires
            old(self).wf(),
        ensures
            final(self).wf(),
            final(self).next() == old(self).next(),
            final(self)@ == Map::<Seq<char>, (Seq<char>, u64)>::empty(),
            old(self)@.dom().finite(),
            count == old(self)@.dom().len(),
    {
        proof {
            lemma_size(rule_entries(self.rules@));
        }
        let count: usize = self.rules.len();
        self.rules.clear();
        proof {
            lemma_empty::<Seq<char>, (Seq<char>, u64)>();
            assert(rule_entries(self.rules@) =~= Seq::empty());
        }
        count
    }
}

/// The map of distinct entries has as many keys as there are entries.
proof fn lemma_size<K, V>(entries: Seq<(K, V)>)
    requires
        distinct(entries),
    ensures
        map_of(entries).dom().finite(),
        map_of(entries).dom().len() == entries.len(),
    decreases entries.len(),
{
    if entries.len() == 0 {
        lemma_empty::<K, V>();
        assert(entries =~= Seq::<(K, V)>::empty());
        assert(map_of(entries).dom() =~= Set::<K>::empty());
    } else {
        let front = entries.drop_last();
        let last = entries.last();
        lemma_size(front);
        assert(entries =~= front.push(last));
        lemma_push(front, last.0, last.1);
        lemma_absent(front, last.0);
        assert(map_of(entries).dom() =~= map_of(front).dom().insert(last.0));
    }
}

/// A rule that was added is listed, cannot be added again, and is gone once it
/// is removed.
pub proof fn rules_stay_until_removed(
    rules: Map<Seq<char>, (Seq<char>, u64)>,
    local: Seq<char>,
    remote: Seq<char>,
    ticket: u64,
)
    requires
        forward_port(rules, local) is Ok,
    ensures
        ({
            let after = rules.insert(local, (remote, ticket));
            &&& after.contains_key(local)
            &&& forward_port(after, local) == Err::<nat, _>(
                "forward requires an unused nonzero TCP port"@,
            )
            &&& after.remove(local) == rules
            &&& forward_port(after.remove(local), local) == forward_port(rules, local)
        }),
{
    assert(rules.insert(local, (remote, ticket)).remove(local) =~= rules);
}

/// What the host end of a connection did.
#[derive(Debug)]
pub enum LocalEvent<B, E> {
    /// It sent bytes.
    Data(B),
    /// It ended.
    Ended,
    /// Reading from it failed.
    Failed(E),
    /// Its reader is gone.
    Gone,
}

/// What a host event says.
pub open spec fn event_view(event: LocalEvent<Vec<u8>, RustADBError<String>>) -> LocalEvent<
    Seq<u8>,
    RustADBError<Seq<char>>,
> {
    match event {
        LocalEvent::Data(bytes) => LocalEvent::Data(bytes@),
        LocalEvent::Ended => LocalEvent::Ended,
        LocalEvent::Failed(error) => LocalEvent::Failed(error@),
        LocalEvent::Gone => LocalEvent::Gone,
    }
}

/// Builds the packet that opens a stream to a forward destination.
pub fn open_destination(local_id: u32, destination: &str) -> (message: AdbResult<
    ADBTransportMessage,
>)
    ensures
        if encode_utf8(destination@).len() < u32::MAX {
            &&& message is Ok
            &&& message->Ok_0@ == packet(
                MessageCommand::Open,
                local_id,
                0,
                encode_utf8(destination@).push(0),
            )
        } else {
            message is Err && message->Err_0@ == RustADBError::<Seq<char>>::NumberOverflow
        },
{
    let mut bytes: Vec<u8> = Vec::new();
    push_bytes(&mut bytes, destination.as_bytes());
    assert(bytes@ =~= encode_utf8(destination@));
    bytes.push(0);
    ADBTransportMessage::try_new(MessageCommand::Open, local_id, 0, &bytes)
}

/// A forwarded connection. The host may have one write on its way; it sends no
/// more until the device has acknowledged it.
#[derive(Clone, Copy, Debug, PartialEq, Eq, Structural)]
pub struct ForwardConnection {
    /// The two ends of the stream; the device end is zero while it is opened.
    pub service: DispatchedService,
    /// Whether the stream is open.
    pub open: bool,
    /// Whether a write waits for its acknowledgement.
    pub pending: bool,
}

/// The answer of a forwarded connection to a packet.
pub open spec fn forward_step(connection: ForwardConnection, packet: Packet) -> (
    ForwardConnection,
    Answer,
) {
    let service = connection.service;
    if !connection.open {
        if packet.command == MessageCommand::Okay && packet.arg1 == service.local_id {
            (
                ForwardConnection {
                    service: DispatchedService {
                        local_id: service.local_id,
                        remote_id: packet.arg0,
                    },
                    open: true,
                    pending: false,
                },
                silent(),
            )
        } else {
            (connection, ends(fails("forward destination rejected"@)))
        }
    } else {
        match packet.command {
            MessageCommand::Write => (
                connection,
                Answer {
                    actions: puts(packet.payload).push(Action::Send(okay(service))),
                    outcome: None,
                },
            ),
            MessageCommand::Okay => (ForwardConnection { pending: false, ..connection }, silent()),
            MessageCommand::Clse => (
                connection,
                Answer {
                    actions: seq![Action::TrySend(close(service))],
                    outcome: Some(Ok(())),
                },
            ),
            _ => (connection, ends(fails("unexpected forward packet"@))),
        }
    }
}

/// The answer of a forwarded connection to a host event. A host end that fails is
/// one that ended.
pub open spec fn forward_local(
    connection: ForwardConnection,
    event: LocalEvent<Seq<u8>, RustADBError<Seq<char>>>,
) -> (ForwardConnection, Answer) {
    match event {
        LocalEvent::Data(bytes) => if bytes.len() <= u32::MAX {
            (
                ForwardConnection { pending: true, ..connection },
                Answer {
                    actions: seq![Action::Send(carries(connection.service, bytes))],
                    outcome: None,
                },
            )
        } else {
            (connection, ends(Some(Err(RustADBError::NumberOverflow))))
        },
        LocalEvent::Ended | LocalEvent::Failed(_) => (
            connection,
            Answer {
                actions: seq![Action::TrySend(close(connection.service))],
                outcome: Some(Ok(())),
            },
        ),
        LocalEvent::Gone => (connection, ends(Some(Ok(())))),
    }
}

impl ForwardConnection {
    /// A connection whose stream is being opened.
    pub fn new(local_id: u32) -> (connection: ForwardConnection)
        ensures
            connection == (ForwardConnection {
                service: DispatchedService { local_id, remote_id: 0 },
                open: false,
                pending: false,
            }),
    {
        ForwardConnection {
            service: DispatchedService { local_id, remote_id: 0 },
            open: false,
            pending: false,
        }
    }

    /// Whether the next host event may be taken.
    pub fn wants_local(&self) -> (wants: bool)
        ensures
            wants == (self.open && !self.pending),
    {
        self.open && !self.pending
    }

    /// Answers a packet of the device.
    pub fn on_packet(&mut self, packet: &ADBTransportMessage) -> (step: Step)
        ensures
            (*final(self), step@) == forward_step(*old(self), packet@),
    {
        if !self.open {
            if packet.header.command == MessageCommand::Okay && packet.header.arg1
                == self.service.local_id {
                self.service = DispatchedService {
                    local_id: self.service.local_id,
                    remote_id: packet.header.arg0,
                };
                self.open = true;
                self.pending = false;
                Step::idle()
            } else {
                Step::idle().ending(Err(failure("forward destination rejected")))
            }
        } else {
            match packet.header.command {
                MessageCommand::Write => pass_on(&self.service, &packet.payload),
                MessageCommand::Okay => {
                    self.pending = false;
                    Step::idle()
                },
                MessageCommand::Clse => {
                    let step = Step::idle().with(Action::TrySend(self.service.close_ack())).ending(
                        Ok(()),
                    );
                    assert(step@.actions =~= seq![Action::TrySend(close(self.service))]);
                    step
                },
                _ => Step::idle().ending(Err(failure("unexpected forward packet"))),
            }
        }
    }

    /// Answers an event of the host.
    pub fn on_local(&mut self, event: LocalEvent<Vec<u8>, RustADBError<String>>) -> (step: Step)
        requires
            old(self).open,
            !old(self).pending,
        ensures
            (*final(self), step@) == forward_local(*old(self), event_view(event)),
    {
        match event {
            LocalEvent::Data(bytes) => match self.service.write(&bytes) {
                Ok(message) => {
                    self.pending = true;
                    let step = Step::idle().with(Action::Send(message));
                    assert(step@.actions =~= seq![Action::Send(message@)]);
                    step
                },
                Err(error) => Step::idle().ending(Err(error)),
            },
            LocalEvent::Ended | LocalEvent::Failed(_) => {
                let step = Step::idle().with(Action::TrySend(self.service.close_ack())).ending(
                    Ok(()),
                );
                assert(step@.actions =~= seq![Action::TrySend(close(self.service))]);
                step
            },
            LocalEvent::Gone => Step::idle().ending(Ok(())),
        }
    }
}

/// Puts the bytes of a write out, and then acknowledges it.
fn pass_on(service: &DispatchedService, payload: &[u8]) -> (step: Step)
    ensures
        step@ == (Answer {
            actions: puts(payload@).push(Action::Send(okay(*service))),
            outcome: None,
        }),
{
    let mut copy: Vec<u8> = Vec::new();
    push_bytes(&mut copy, payload);
    assert(copy@ =~= payload@);
    let begun = if payload.len() > 0 {
        Step::idle().with(Action::Output(copy))
    } else {
        Step::idle()
    };
    assert(begun@.actions =~= puts(payload@));
    begun.with(Action::Send(service.acknowledge()))
}

/// A connection of the device that is relayed to a host port. As with a
/// forwarded connection, one write of the host may be on its way.
#[derive(Clone, Copy, Debug, PartialEq, Eq, Structural)]
pub struct Relay {
    /// The two ends of the stream.
    pub service: DispatchedService,
    /// Whether a write waits for its acknowledgement.
    pub pending: bool,
}

/// The step that ends a relay: it closes the stream.
pub open spec fn relay_end(relay: Relay, outcome: Outcome) -> (Relay, Answer) {
    (relay, Answer { actions: seq![Action::TrySend(close(relay.service))], outcome })
}

/// The answer of a relay to a packet.
pub open spec fn relay_step(relay: Relay, packet: Packet) -> (Relay, Answer) {
    match packet.command {
        MessageCommand::Write => (
            relay,
            Answer {
                actions: puts(packet.payload).push(Action::Send(okay(relay.service))),
                outcome: None,
            },
        ),
        MessageCommand::Okay => (Relay { pending: false, ..relay }, silent()),
        MessageCommand::Clse => relay_end(relay, Some(Ok(()))),
        _ => relay_end(relay, fails("unexpected relay packet"@)),
    }
}

/// The answer of a relay to a host event. A host end that fails makes the relay
/// fail, with the same error.
pub open spec fn relay_local(
    relay: Relay,
    event: LocalEvent<Seq<u8>, RustADBError<Seq<char>>>,
) -> (Relay, Answer) {
    match event {
        LocalEvent::Data(bytes) => if bytes.len() <= u32::MAX {
            (
                Relay { pending: true, ..relay },
                Answer {
                    actions: seq![Action::Send(carries(relay.service, bytes))],
                    outcome: None,
                },
            )
        } else {
            relay_end(relay, Some(Err(RustADBError::NumberOverflow)))
        },
        LocalEvent::Ended | LocalEvent::Gone => relay_end(relay, Some(Ok(()))),
        LocalEvent::Failed(error) => relay_end(relay, Some(Err(error))),
    }
}

impl Relay {
    /// Begins a relay whose host connection stands: the device is told.
    pub fn connected(local_id: u32, remote_id: u32) -> (begun: (Relay, Step))
        ensures
            begun.0 == (Relay {
                service: DispatchedService { local_id, remote_id },
                pending: false,
            }),
            begun.1@ == (Answer {
                actions: seq![Action::Send(okay(DispatchedService { local_id, remote_id }))],
                outcome: None,
            }),
    {
        let service = DispatchedService { local_id, remote_id };
        let step = Step::idle().with(Action::Send(service.acknowledge()));
        assert(step@.actions =~= seq![Action::Send(okay(service))]);
        (Relay { service, pending: false }, step)
    }

    /// The packet for a device whose stream cannot be connected on the host.
    pub fn refused(remote_id: u32) -> (message: ADBTransportMessage)
        ensures
            message@ == bare(MessageCommand::Clse, 0, remote_id),
    {
        ADBTransportMessage::bare(MessageCommand::Clse, 0, remote_id)
    }

    /// Ends the relay.
    pub fn end(&self, outcome: AdbResult<()>) -> (step: Step)
        ensures
            (*self, step@) == relay_end(*self, crate::service::outcome_view(Some(outcome))),
    {
        let step = Step::idle().with(Action::TrySend(self.service.close_ack())).ending(outcome);
        assert(step@.actions =~= seq![Action::TrySend(close(self.service))]);
        step
    }

    /// Answers a packet of the device.
    pub fn on_packet(&mut self, packet: &ADBTransportMessage) -> (step: Step)
        ensures
            (*final(self), step@) == relay_step(*old(self), packet@),
    {
        match packet.header.command {
            MessageCommand::Write => pass_on(&self.service, &packet.payload),
            MessageCommand::Okay => {
                self.pending = false;
                Step::idle()
            },
            MessageCommand::Clse => self.end(Ok(())),
            _ => self.end(Err(failure("unexpected relay packet"))),
        }
    }

    /// Answers an event of the host.
    pub fn on_local(&mut self, event: LocalEvent<Vec<u8>, RustADBError<String>>) -> (step: Step)
        requires
            !old(self).pending,
        ensures
            (*final(self), step@) == relay_local(*old(self), event_view(event)),
    {
        match event {
            LocalEvent::Data(bytes) => match self.service.write(&bytes) {
                Ok(message) => {
                    self.pending = true;
                    let step = Step::idle().with(Action::Send(message));
                    assert(step@.actions =~= seq![Action::Send(message@)]);
                    step
                },
                Err(error) => self.end(Err(error)),
            },
            LocalEvent::Ended => self.end(Ok(())),
            LocalEvent::Failed(error) => self.end(Err(error)),
            LocalEvent::Gone => self.end(Ok(())),
        }
    }
}

/// What happens to an open stream that carries a host connection.
pub ghost enum StreamEvent {
    /// A packet of the device.
    Device(Packet),
    /// Bytes of the host.
    Host(Seq<u8>),
}

/// What a forwarded connection does over a list of events.
pub open spec fn forwarded(connection: ForwardConnection, events: Seq<StreamEvent>) -> (
    ForwardConnection,
    Seq<Action<Packet, Seq<u8>>>,
)
    decreases events.len(),
{
    if events.len() == 0 {
        (connection, seq![])
    } else {
        let before = forwarded(connection, events.drop_last());
        let next = match events.last() {
            StreamEvent::Device(packet) => forward_step(before.0, packet),
            StreamEvent::Host(bytes) => forward_local(before.0, LocalEvent::Data(bytes)),
        };
        (next.0, before.1 + next.1.actions)
    }
}

/// Whether a forwarded connection is handed bytes of the host only when it may
/// take them.
pub open spec fn forward_admits(connection: ForwardConnection, events: Seq<StreamEvent>) -> bool
    decreases events.len(),
{
    events.len() == 0 || {
        let before = forwarded(connection, events.drop_last()).0;
        &&& forward_admits(connection, events.drop_last())
        &&& events.last() is Host ==> before.open && !before.pending
    }
}

/// What a relay does over a list of events.
pub open spec fn relayed(relay: Relay, events: Seq<StreamEvent>) -> (
    Relay,
    Seq<Action<Packet, Seq<u8>>>,
)
    decreases events.len(),
{
    if events.len() == 0 {
        (relay, seq![])
    } else {
        let before = relayed(relay, events.drop_last());
        let next = match events.last() {
            StreamEvent::Device(packet) => relay_step(before.0, packet),
            StreamEvent::Host(bytes) => relay_local(before.0, LocalEvent::Data(bytes)),
        };
        (next.0, before.1 + next.1.actions)
    }
}

/// Whether a relay is handed bytes of the host only when it may take them.
pub open spec fn relay_admits(relay: Relay, events: Seq<StreamEvent>) -> bool
    decreases events.len(),
{
    events.len() == 0 || {
        &&& relay_admits(relay, events.drop_last())
        &&& events.last() is Host ==> !relayed(relay, events.drop_last()).0.pending
    }
}

/// The payloads of the writes that actions send.
pub open spec fn writes_sent(actions: Seq<Action<Packet, Seq<u8>>>) -> Seq<Seq<u8>>
    decreases actions.len(),
{
    if actions.len() == 0 {
        seq![]
    } else {
        let before = writes_sent(actions.drop_last());
        match actions.last() {
            Action::Send(packet) => if packet.command == MessageCommand::Write {
                before.push(packet.payload)
            } else {
                before
            },
            _ => before,
        }
    }
}

/// How many acknowledgements of the device are among the events.
pub open spec fn acknowledgements(events: Seq<StreamEvent>) -> nat
    decreases events.len(),
{
    if events.len() == 0 {
        0
    } else {
        acknowledgements(events.drop_last()) + match events.last() {
            StreamEvent::Device(packet) => if packet.command == MessageCommand::Okay {
                1nat
            } else {
                0nat
            },
            StreamEvent::Host(_) => 0nat,
        }
    }
}

/// The pieces that the host sends, in order.
pub open spec fn host_pieces(events: Seq<StreamEvent>) -> Seq<Seq<u8>>
    decreases events.len(),
{
    if events.len() == 0 {
        seq![]
    } else {
        match events.last() {
            StreamEvent::Device(_) => host_pieces(events.drop_last()),
            StreamEvent::Host(bytes) => host_pieces(events.drop_last()).push(bytes),
        }
    }
}

/// The bytes that the device writes, in order.
pub open spec fn device_bytes(events: Seq<StreamEvent>) -> Seq<u8>
    decreases events.len(),
{
    if events.len() == 0 {
        seq![]
    } else {
        device_bytes(events.drop_last()) + match events.last() {
            StreamEvent::Device(packet) => if packet.command == MessageCommand::Write {
                packet.payload
            } else {
                seq![]
            },
            StreamEvent::Host(_) => seq![],
        }
    }
}

/// Whether no piece of the host is too long for a packet.
pub open spec fn pieces_fit(events: Seq<StreamEvent>) -> bool {
    forall|i: int|
        0 <= i < events.len() && #[trigger] events[i] is Host ==> events[i]->Host_0.len()
            <= u32::MAX
}

/// One, where a write waits for its acknowledgement.
pub open spec fn outstanding(pending: bool) -> nat {
    if pending {
        1
    } else {
        0
    }
}

/// At most one write of a forwarded connection is on its way at any time: it never
/// sends more than one write beyond the acknowledgements.
pub proof fn one_write_at_a_time(connection: ForwardConnection, events: Seq<StreamEvent>)
    requires
        connection.open,
        forward_admits(connection, events),
    ensures
        forwarded(connection, events).0.open,
        writes_sent(forwarded(connection, events).1).len() + outstanding(connection.pending)
            <= acknowledgements(events) + 1,
{
    lemma_forward_outstanding(connection, events);
}

/// What a forwarded connection sent is acknowledged, but for what is outstanding.
proof fn lemma_forward_outstanding(connection: ForwardConnection, events: Seq<StreamEvent>)
    requires
        connection.open,
        forward_admits(connection, events),
    ensures
        forwarded(connection, events).0.open,
        writes_sent(forwarded(connection, events).1).len() + outstanding(connection.pending)
            <= acknowledgements(events) + outstanding(forwarded(connection, events).0.pending),
    decreases events.len(),
{
    if events.len() > 0 {
        let front = events.drop_last();
        lemma_forward_outstanding(connection, front);
        let before = forwarded(connection, front);
        match events.last() {
            StreamEvent::Device(packet) => {
                lemma_step_writes(before.1, forward_step(before.0, packet).1.actions);
                lemma_answer_writes(before.0.service, packet.payload);
            },
            StreamEvent::Host(bytes) => {
                let actions = forward_local(before.0, LocalEvent::Data(bytes)).1.actions;
                lemma_step_writes(before.1, actions);
                lemma_host_write(before.0.service, bytes);
            },
        }
    }
}

/// At most one write of a relay is on its way at any time.
pub proof fn one_relayed_write_at_a_time(relay: Relay, events: Seq<StreamEvent>)
    requires
        relay_admits(relay, events),
    ensures
        writes_sent(relayed(relay, events).1).len() + outstanding(relay.pending)
            <= acknowledgements(events) + 1,
{
    lemma_relay_outstanding(relay, events);
}

/// What a relay sent is acknowledged, but for what is outstanding.
proof fn lemma_relay_outstanding(relay: Relay, events: Seq<StreamEvent>)
    requires
        relay_admits(relay, events),
    ensures
        writes_sent(relayed(relay, events).1).len() + outstanding(relay.pending)
            <= acknowledgements(events) + outstanding(relayed(relay, events).0.pending),
    decreases events.len(),
{
    if events.len() > 0 {
        let front = events.drop_last();
        lemma_relay_outstanding(relay, front);
        let before = relayed(relay, front);
        match events.last() {
            StreamEvent::Device(packet) => {
                lemma_step_writes(before.1, relay_step(before.0, packet).1.actions);
                lemma_answer_writes(before.0.service, packet.payload);
            },
            StreamEvent::Host(bytes) => {
                let actions = relay_local(before.0, LocalEvent::Data(bytes)).1.actions;
                lemma_step_writes(before.1, actions);
                lemma_host_write(before.0.service, bytes);
            },
        }
    }
}

/// No piece that the host sends is lost, moved or changed on its way to the device.
pub proof fn host_pieces_are_sent_in_order(
    connection: ForwardConnection,
    relay: Relay,
    events: Seq<StreamEvent>,
)
    requires
        connection.open,
        pieces_fit(events),
    ensures
        forwarded(connection, events).0.open,
        writes_sent(forwarded(connection, events).1) == host_pieces(events),
        writes_sent(relayed(relay, events).1) == host_pieces(events),
    decreases events.len(),
{
    if events.len() > 0 {
        let front = events.drop_last();
        assert(pieces_fit(front)) by {
            assert forall|i: int| 0 <= i < front.len() && #[trigger] front[i] is Host implies
                front[i]->Host_0.len() <= u32::MAX by {
                assert(events[i] is Host);
            }
        }
        host_pieces_are_sent_in_order(connection, relay, front);
        let one = forwarded(connection, front);
        let other = relayed(relay, front);
        match events.last() {
            StreamEvent::Device(packet) => {
                lemma_step_writes(one.1, forward_step(one.0, packet).1.actions);
                lemma_step_writes(other.1, relay_step(other.0, packet).1.actions);
                lemma_answer_writes(one.0.service, packet.payload);
                lemma_answer_writes(other.0.service, packet.payload);
            },
            StreamEvent::Host(bytes) => {
                assert(events[events.len() - 1] is Host);
                let data = LocalEvent::<Seq<u8>, RustADBError<Seq<char>>>::Data(bytes);
                lemma_step_writes(one.1, forward_local(one.0, data).1.actions);
                lemma_step_writes(other.1, relay_local(other.0, data).1.actions);
                lemma_host_write(one.0.service, bytes);
                lemma_host_write(other.0.service, bytes);
            },
        }
        assert(writes_sent(forwarded(connection, events).1) =~= host_pieces(events));
        assert(writes_sent(relayed(relay, events).1) =~= host_pieces(events));
    }
}

/// No byte that the device writes to an open stream is lost or moved on its way to
/// the host.
pub proof fn device_bytes_arrive_in_order(
    connection: ForwardConnection,
    relay: Relay,
    events: Seq<StreamEvent>,
)
    requires
        connection.open,
    ensures
        forwarded(connection, events).0.open,
        forwarded(connection, events).0.service == connection.service,
        put_out(forwarded(connection, events).1) == device_bytes(events),
        relayed(relay, events).0.service == relay.service,
        put_out(relayed(relay, events).1) == device_bytes(events),
    decreases events.len(),
{
    if events.len() > 0 {
        let front = events.drop_last();
        device_bytes_arrive_in_order(connection, relay, front);
        let one = forwarded(connection, front);
        let other = relayed(relay, front);
        match events.last() {
            StreamEvent::Device(packet) => {
                lemma_step_output(one.1, forward_step(one.0, packet).1.actions);
                lemma_step_output(other.1, relay_step(other.0, packet).1.actions);
                lemma_passed_on(one.0.service, packet.payload);
                lemma_passed_on(other.0.service, packet.payload);
            },
            StreamEvent::Host(bytes) => {
                let data = LocalEvent::<Seq<u8>, RustADBError<Seq<char>>>::Data(bytes);
                lemma_step_output(one.1, forward_local(one.0, data).1.actions);
                lemma_step_output(other.1, relay_local(other.0, data).1.actions);
                lemma_host_output(one.0.service, bytes);
                lemma_host_output(other.0.service, bytes);
            },
        }
        assert(put_out(forwarded(connection, events).1) =~= device_bytes(events));
        assert(put_out(relayed(relay, events).1) =~= device_bytes(events));
    }
}

/// The writes of two lists of actions are those of both.
proof fn lemma_step_writes(
    first: Seq<Action<Packet, Seq<u8>>>,
    second: Seq<Action<Packet, Seq<u8>>>,
)
    ensures
        writes_sent(first + second) == writes_sent(first) + writes_sent(second),
    decreases second.len(),
{
    if second.len() == 0 {
        assert(first + second =~= first);
        assert(writes_sent(first) + Seq::<Seq<u8>>::empty() =~= writes_sent(first));
    } else {
        lemma_step_writes(first, second.drop_last());
        assert((first + second).drop_last() =~= first + second.drop_last());
        assert((first + second).last() == second.last());
        assert(writes_sent(first + second) =~= writes_sent(first) + writes_sent(second));
    }
}

/// What two lists of actions put out is what both put out.
proof fn lemma_step_output(
    first: Seq<Action<Packet, Seq<u8>>>,
    second: Seq<Action<Packet, Seq<u8>>>,
)
    ensures
        put_out(first + second) == put_out(first) + put_out(second),
    decreases second.len(),
{
    if second.len() == 0 {
        assert(first + second =~= first);
        assert(put_out(first) + Seq::<u8>::empty() =~= put_out(first));
    } else {
        lemma_step_output(first, second.drop_last());
        assert((first + second).drop_last() =~= first + second.drop_last());
        assert((first + second).last() == second.last());
        assert(put_out(first + second) =~= put_out(first) + put_out(second));
    }
}

/// The answers to packets of the device send no write.
proof fn lemma_answer_writes(service: DispatchedService, payload: Seq<u8>)
    ensures
        writes_sent(puts(payload).push(Action::Send(okay(service)))) == Seq::<Seq<u8>>::empty(),
        writes_sent(seq![Action::TrySend(close(service))]) == Seq::<Seq<u8>>::empty(),
        writes_sent(silent().actions) == Seq::<Seq<u8>>::empty(),
{
    let begun = puts(payload);
    assert(begun.push(Action::Send(okay(service))).drop_last() =~= begun);
    if payload.len() > 0 {
        assert(begun.drop_last() =~= seq![]);
        assert(writes_sent(begun.drop_last()) =~= seq![]);
    }
    let closing = seq![Action::<Packet, Seq<u8>>::TrySend(close(service))];
    assert(closing.drop_last() =~= seq![]);
    assert(writes_sent(begun) =~= seq![]);
    assert(writes_sent(closing.drop_last()) =~= seq![]);
}

/// Bytes of the host are sent in one write.
proof fn lemma_host_write(service: DispatchedService, bytes: Seq<u8>)
    ensures
        writes_sent(seq![Action::Send(carries(service, bytes))]) == seq![bytes],
        writes_sent(silent().actions) == Seq::<Seq<u8>>::empty(),
        writes_sent(seq![Action::TrySend(close(service))]) == Seq::<Seq<u8>>::empty(),
{
    let sending = seq![Action::<Packet, Seq<u8>>::Send(carries(service, bytes))];
    assert(sending.drop_last() =~= seq![]);
    assert(writes_sent(sending.drop_last()) =~= seq![]);
    assert(writes_sent(sending) =~= seq![bytes]);
    lemma_answer_writes(service, bytes);
}

/// Bytes of the host are not put out.
proof fn lemma_host_output(service: DispatchedService, bytes: Seq<u8>)
    ensures
        put_out(seq![Action::Send(carries(service, bytes))]) == Seq::<u8>::empty(),
        put_out(silent().actions) == Seq::<u8>::empty(),
        put_out(seq![Action::TrySend(close(service))]) == Seq::<u8>::empty(),
{
    let sending = seq![Action::<Packet, Seq<u8>>::Send(carries(service, bytes))];
    let closing = seq![Action::<Packet, Seq<u8>>::TrySend(close(service))];
    assert(sending.drop_last() =~= seq![]);
    assert(closing.drop_last() =~= seq![]);
    assert(put_out(sending.drop_last()) =~= seq![]);
    assert(put_out(sending) =~= seq![]);
    assert(put_out(closing) =~= seq![]);
}

/// The answer to a write puts its bytes out, and no other answer puts out any.
proof fn lemma_passed_on(service: DispatchedService, payload: Seq<u8>)
    ensures
        put_out(puts(payload).push(Action::Send(okay(service)))) == payload,
        put_out(silent().actions) == Seq::<u8>::empty(),
        put_out(seq![Action::TrySend(close(service))]) == Seq::<u8>::empty(),
{
    let begun = puts(payload);
    let all = begun.push(Action::Send(okay(service)));
    assert(all.drop_last() =~= begun);
    if payload.len() > 0 {
        assert(begun.drop_last() =~= seq![]);
        assert(put_out(begun.drop_last()) =~= seq![]);
        assert(put_out(begun) =~= payload);
    } else {
        assert(put_out(begun) =~= seq![]);
        assert(payload =~= seq![]);
    }
    assert(put_out(all) =~= payload);
    lemma_host_output(service, payload);
}

/// A rule takes any port of the host but zero and those that have a rule.
pub proof fn rules_take_free_ports(
    rules: Map<Seq<char>, (Seq<char>, u64)>,
    port: u16,
    other: Seq<char>,
)
    ensures
        port > 0 && !rules.contains_key("tcp:"@ + decimal(port as nat)) ==> forward_port(
            rules,
            "tcp:"@ + decimal(port as nat),
        ) == Ok::<nat, Seq<char>>(port as nat),
        port == 0 || rules.contains_key("tcp:"@ + decimal(port as nat)) ==> forward_port(
            rules,
            "tcp:"@ + decimal(port as nat),
        ) == Err::<nat, Seq<char>>("forward requires an unused nonzero TCP port"@),
        !"tcp:"@.is_prefix_of(other) ==> forward_port(rules, other) == Err::<nat, Seq<char>>(
            "forward requires tcp:<port>"@,
        ),
{
    ports_stand_behind_their_protocol(port as nat, other);
}

/// A connection opens on the answer to its own request, and then speaks to the end
/// that answered; any other packet refuses it.
pub proof fn connections_open_on_their_answer(local_id: u32, other: u32, packet: Packet)
    ensures
        ({
            let fresh = ForwardConnection {
                service: DispatchedService { local_id, remote_id: other },
                open: false,
                pending: false,
            };
            let (after, answer) = forward_step(fresh, packet);
            if packet.command == MessageCommand::Okay && packet.arg1 == local_id {
                &&& after.open
                &&& !after.pending
                &&& after.service.local_id == local_id
                &&& after.service.remote_id == packet.arg0
                &&& answer.actions.len() == 0
                &&& answer.outcome is None
            } else {
                &&& !after.open
                &&& answer.actions.len() == 0
                &&& answer.outcome == Some(
                    Err::<(), RustADBError<Seq<char>>>(
                        RustADBError::ADBRequestFailed("forward destination rejected"@),
                    ),
                )
            }
        }),
{
}

/// Data of the device is passed on and then acknowledged, in an open connection and
/// in a relay alike.
pub proof fn data_is_passed_on_and_acknowledged(
    service: DispatchedService,
    pending: bool,
    packet: Packet,
)
    requires
        packet.command == MessageCommand::Write,
    ensures
        ({
            let connection = ForwardConnection { service, open: true, pending };
            let relay = Relay { service, pending };
            let (after, answer) = forward_step(connection, packet);
            let (left, relayed) = relay_step(relay, packet);
            let acknowledged = answer.actions.last();
            &&& after == connection
            &&& left == relay
            &&& relayed == answer
            &&& answer.outcome is None
            &&& acknowledged is Send
            &&& acknowledged->Send_0.command == MessageCommand::Okay
            &&& acknowledged->Send_0.arg0 == service.local_id
            &&& acknowledged->Send_0.arg1 == service.remote_id
            &&& acknowledged->Send_0.payload.len() == 0
            &&& answer.actions.drop_last() == if packet.payload.len() > 0 {
                seq![Action::<Packet, Seq<u8>>::Output(packet.payload)]
            } else {
                seq![]
            }
        }),
{
    let answer = forward_step(ForwardConnection { service, open: true, pending }, packet).1;
    assert(answer.actions.drop_last() =~= puts(packet.payload));
}

/// Bytes of the host are written to the device, and await its answer.
pub proof fn bytes_are_written_to_the_device(service: DispatchedService, bytes: Seq<u8>)
    requires
        bytes.len() <= u32::MAX,
    ensures
        ({
            let connection = ForwardConnection { service, open: true, pending: false };
            let (after, answer) = forward_local(connection, LocalEvent::Data(bytes));
            let (left, relayed) = relay_local(
                Relay { service, pending: false },
                LocalEvent::Data(bytes),
            );
            &&& after == (ForwardConnection { service, open: true, pending: true })
            &&& left == (Relay { service, pending: true })
            &&& relayed == answer
            &&& answer.outcome is None
            &&& answer.actions.len() == 1
            &&& answer.actions[0] is Send
            &&& answer.actions[0]->Send_0.command == MessageCommand::Write
            &&& answer.actions[0]->Send_0.arg0 == service.local_id
            &&& answer.actions[0]->Send_0.arg1 == service.remote_id
            &&& answer.actions[0]->Send_0.payload == bytes
        }),
{
}

/// The answer of the device makes room for the next bytes of the host.
pub proof fn answers_make_room(service: DispatchedService, pending: bool, packet: Packet)
    requires
        packet.command == MessageCommand::Okay,
    ensures
        forward_step(ForwardConnection { service, open: true, pending }, packet) == (
            ForwardConnection { service, open: true, pending: false },
            Answer { actions: seq![], outcome: None },
        ),
        relay_step(Relay { service, pending }, packet) == (
            Relay { service, pending: false },
            Answer { actions: seq![], outcome: None },
        ),
{
}

/// Whether an answer does no more than try to close a stream and end with an outcome.
pub open spec fn closes_with(answer: Answer, service: DispatchedService, outcome: Outcome) -> bool {
    &&& answer.outcome == outcome
    &&& answer.actions.len() == 1
    &&& answer.actions[0] is TrySend
    &&& answer.actions[0]->TrySend_0.command == MessageCommand::Clse
    &&& answer.actions[0]->TrySend_0.arg0 == service.local_id
    &&& answer.actions[0]->TrySend_0.arg1 == service.remote_id
    &&& answer.actions[0]->TrySend_0.payload.len() == 0
}

/// Either end may close: the other is told, and that is no failure.
pub proof fn either_end_may_close(service: DispatchedService, pending: bool, packet: Packet)
    requires
        packet.command == MessageCommand::Clse,
    ensures
        ({
            let connection = ForwardConnection { service, open: true, pending };
            let relay = Relay { service, pending };
            &&& closes_with(forward_step(connection, packet).1, service, Some(Ok(())))
            &&& closes_with(relay_step(relay, packet).1, service, Some(Ok(())))
            &&& closes_with(forward_local(connection, LocalEvent::Ended).1, service, Some(Ok(())))
            &&& closes_with(relay_local(relay, LocalEvent::Ended).1, service, Some(Ok(())))
            &&& closes_with(relay_local(relay, LocalEvent::Gone).1, service, Some(Ok(())))
            &&& forward_local(connection, LocalEvent::Gone).1 == (Answer {
                actions: seq![],
                outcome: Some(Ok(())),
            })
        }),
{
}

/// A failure of the host's end ends a relay with that failure and a connection
/// without one; a packet that has no place in a stream is a failure of both.
pub proof fn failures_of_either_end(
    service: DispatchedService,
    pending: bool,
    error: RustADBError<Seq<char>>,
    packet: Packet,
)
    requires
        packet.command != MessageCommand::Write,
        packet.command != MessageCommand::Okay,
        packet.command != MessageCommand::Clse,
    ensures
        ({
            let connection = ForwardConnection { service, open: true, pending };
            let relay = Relay { service, pending };
            let failed = LocalEvent::Failed(error);
            &&& closes_with(relay_local(relay, failed).1, service, Some(Err(error)))
            &&& closes_with(forward_local(connection, failed).1, service, Some(Ok(())))
            &&& closes_with(
                relay_step(relay, packet).1,
                service,
                Some(Err(RustADBError::ADBRequestFailed("unexpected relay packet"@))),
            )
            &&& forward_step(connection, packet).1 == (Answer {
                actions: seq![],
                outcome: Some(
                    Err(RustADBError::ADBRequestFailed("unexpected forward packet"@)),
                ),
            })
        }),
{
}

} // verus!
