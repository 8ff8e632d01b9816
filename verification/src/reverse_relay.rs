//! The relay of one reverse route: streams that the device opens are joined to
//! connections to a host port.

use crate::crypto::random_id;
use crate::error::{failed, failure, AdbResult, RustADBError};
use crate::message::{bare, command_name, packet, ADBTransportMessage, MessageCommand, Packet};
use crate::table::{
    distinct, lemma_absent, lemma_empty, lemma_entry, lemma_push, lemma_remove, lemma_update,
    map_of,
};
use crate::text::{
    after_prefix, copy_text, decimal, decimals_are_read_back, decode_lossy, lossy, plus,
    prefixes_are_taken_off, read_unsigned, same_text, strip_prefix,
    trim_zeros, unsigned_complaint, unsigned_value, without_zeros,
};
use vstd::prelude::*;

verus! {

/// What a relay asks for after a packet of the device.
#[derive(Debug)]
pub enum RelayAction<M, B> {
    /// Nothing.
    Nothing,
    /// Connect to the host port for a stream of the device, and then accept it.
    Connect {
        /// The identifier of the device.
        device_id: u32,
        /// The host port.
        port: u16,
    },
    /// Write bytes to the connection of a stream, and then send a packet.
    Deliver {
        /// The identifier of the host.
        local_id: u32,
        /// The bytes.
        payload: B,
        /// The packet.
        acknowledgement: M,
    },
    /// Close the connection of a stream, if there is one, and send a packet.
    Close {
        /// The identifier of the host.
        local_id: u32,
        /// The packet.
        acknowledgement: M,
    },
}

/// What an action says.
pub open spec fn relay_view(action: RelayAction<ADBTransportMessage, Vec<u8>>) -> RelayAction<
    Packet,
    Seq<u8>,
> {
    match action {
        RelayAction::Nothing => RelayAction::Nothing,
        RelayAction::Connect { device_id, port } => RelayAction::Connect { device_id, port },
        RelayAction::Deliver { local_id, payload, acknowledgement } => RelayAction::Deliver {
            local_id,
            payload: payload@,
            acknowledgement: acknowledgement@,
        },
        RelayAction::Close { local_id, acknowledgement } => RelayAction::Close {
            local_id,
            acknowledgement: acknowledgement@,
        },
    }
}

/// The host port that a relay connects to.
pub open spec fn relay_port(local: Seq<char>) -> Result<nat, Seq<char>> {
    match after_prefix(local, "tcp:"@) {
        None => Err("reverse relay needs tcp:<port>, got "@ + local),
        Some(text) => match unsigned_value(text, 10, 65535) {
            None => Err("invalid reverse TCP port: "@ + unsigned_complaint(text, 10, 65535)),
            Some(port) => Ok(port),
        },
    }
}

/// What a relay does with a packet of the device, and the streams it has after.
pub open spec fn relay_next(
    remote: Seq<char>,
    port: u16,
    streams: Map<u32, u32>,
    said: Packet,
) -> Result<(Map<u32, u32>, RelayAction<Packet, Seq<u8>>), Seq<char>> {
    match said.command {
        MessageCommand::Open => {
            let destination = trim_zeros(lossy(said.payload));
            if destination != remote {
                Err("device requested non-configured reverse destination "@ + destination)
            } else {
                Ok((streams, RelayAction::Connect { device_id: said.arg0, port }))
            }
        },
        MessageCommand::Write => if !streams.contains_key(said.arg1) {
            Err("write for unknown reverse stream"@)
        } else if streams[said.arg1] != said.arg0 {
            Err("reverse stream id mismatch"@)
        } else {
            Ok(
                (
                    streams,
                    RelayAction::Deliver {
                        local_id: said.arg1,
                        payload: said.payload,
                        acknowledgement: bare(MessageCommand::Okay, said.arg1, said.arg0),
                    },
                ),
            )
        },
        MessageCommand::Clse => Ok(
            (
                streams.remove(said.arg1),
                RelayAction::Close {
                    local_id: said.arg1,
                    acknowledgement: bare(MessageCommand::Clse, said.arg1, said.arg0),
                },
            ),
        ),
        MessageCommand::Okay => Ok((streams, RelayAction::Nothing)),
        command => Err(
            "unexpected "@ + command_name(command) + " while serving reverse relay"@,
        ),
    }
}

/// The relay of one reverse route.
#[derive(Debug)]
pub struct ReverseRelay {
    remote: String,
    local_port: u16,
    streams: Vec<(u32, u32)>,
}

impl ReverseRelay {
    /// The endpoint on the device.
    pub closed spec fn remote(&self) -> Seq<char> {
        self.remote@
    }

    /// The host port.
    pub closed spec fn port(&self) -> u16 {
        self.local_port
    }

    /// The identifier of the device for each stream, by that of the host.
    pub closed spec fn streams(&self) -> Map<u32, u32> {
        map_of(self.streams@)
    }

    /// No two streams share an identifier of the host.
    pub closed spec fn wf(&self) -> bool {
        distinct(self.streams@)
    }

    /// A relay between a device endpoint and a host endpoint.
    pub fn new(remote: String, local: &str) -> (relay: AdbResult<ReverseRelay>)
        ensures
            match relay_port(local@) {
                Ok(port) => {
                    &&& relay is Ok
                    &&& relay->Ok_0.wf()
                    &&& relay->Ok_0.remote() == remote@
                    &&& relay->Ok_0.port() == port
                    &&& relay->Ok_0.streams() == Map::<u32, u32>::empty()
                },
                Err(error) => failed(relay, error),
            },
    {
        let text: String = match strip_prefix(local, "tcp:") {
            Some(text) => text,
            None => return Err(
                RustADBError::ADBRequestFailed(
                    plus(copy_text("reverse relay needs tcp:<port>, got "), local),
                ),
            ),
        };
        let port: u64 = match read_unsigned(&text, 10, 65535) {
            Ok(port) => port,
            Err(complaint) => return Err(
                RustADBError::ADBRequestFailed(
                    plus(copy_text("invalid reverse TCP port: "), &complaint),
                ),
            ),
        };
        let relay = ReverseRelay { remote, local_port: port as u16, streams: Vec::new() };
        proof {
            lemma_empty::<u32, u32>();
            assert(relay.streams@ =~= Seq::<(u32, u32)>::empty());
        }
        Ok(relay)
    }

    /// Finds a stream.
    fn find(&self, local_id: u32) -> (found: Option<usize>)
        requires
            self.wf(),
        ensures
            match found {
                Some(i) => {
                    &&& i < self.streams@.len()
                    &&& self.streams@[i as int].0 == local_id
                    &&& self.streams().contains_key(local_id)
                    &&& self.streams()[local_id] == self.streams@[i as int].1
                },
                None => {
                    &&& !self.streams().contains_key(local_id)
                    &&& forall|i: int|
                        0 <= i < self.streams@.len() ==> (#[trigger] self.streams@[i]).0
                            != local_id
                },
            },
    {
        let mut i: usize = 0;
        while i < self.streams.len()
            invariant
                self.wf(),
                i <= self.streams@.len(),
                forall|j: int| 0 <= j < i ==> (#[trigger] self.streams@[j]).0 != local_id,
            decreases self.streams@.len() - i,
        {
            if self.streams[i].0 == local_id {
                proof {
                    lemma_entry(self.streams@, i as int);
                }
                return Some(i);
            }
            i = i + 1;
        }
        proof {
            lemma_absent(self.streams@, local_id);
        }
        None
    }

    /// Forgets a stream.
    fn forget(&mut self, local_id: u32)
        requires
            old(self).wf(),
        ensures
            final(self).wf(),
            final(self).remote() == old(self).remote(),
            final(self).port() == old(self).port(),
            final(self).streams() == old(self).streams().remove(local_id),
    {
        match self.find(local_id) {
            Some(i) => {
                proof {
                    lemma_remove(self.streams@, i as int);
                }
                let _ = self.streams.remove(i);
            },
            None => {
                assert(self.streams().remove(local_id) =~= self.streams());
            },
        }
    }

    /// Accepts a stream of the device whose host connection stands. Its
    /// identifier is drawn at random.
    pub fn accept(&mut self, device_id: u32) -> (accepted: (u32, ADBTransportMessage))
        requires
            old(self).wf(),
        ensures
            final(self).wf(),
            final(self).remote() == old(self).remote(),
            final(self).port() == old(self).port(),
            final(self).streams() == old(self).streams().insert(accepted.0, device_id),
            accepted.1@ == bare(MessageCommand::Okay, accepted.0, device_id),
    {
        let local_id: u32 = random_id();
        (local_id, self.accept_as(local_id, device_id))
    }

    /// Accepts a stream of the device under an identifier.
    pub fn accept_as(&mut self, local_id: u32, device_id: u32) -> (message: ADBTransportMessage)
        requires
            old(self).wf(),
        ensures
            final(self).wf(),
            final(self).remote() == old(self).remote(),
            final(self).port() == old(self).port(),
            final(self).streams() == old(self).streams().insert(local_id, device_id),
            message@ == bare(MessageCommand::Okay, local_id, device_id),
    {
        let ghost before = self.streams@;
        match self.find(local_id) {
            Some(i) => {
                proof {
                    lemma_update(before, i as int, device_id);
                }
                self.streams.set(i, (local_id, device_id));
            },
            None => {
                proof {
                    lemma_push(before, local_id, device_id);
                }
                self.streams.push((local_id, device_id));
            },
        }
        ADBTransportMessage::bare(MessageCommand::Okay, local_id, device_id)
    }

    /// Takes a packet of the device.
    pub fn handle_device_message(&mut self, message: ADBTransportMessage) -> (action: AdbResult<
        RelayAction<ADBTransportMessage, Vec<u8>>,
    >)
        requires
            old(self).wf(),
        ensures
            final(self).wf(),
            final(self).remote() == old(self).remote(),
            final(self).port() == old(self).port(),
            match relay_next(
                old(self).remote(),
                old(self).port(),
                old(self).streams(),
                message@,
            ) {
                Ok((streams, said)) => {
                    &&& action is Ok
                    &&& relay_view(action->Ok_0) == said
                    &&& final(self).streams() == streams
                },
                Err(error) => failed(action, error) && final(self).streams() == old(
                    self,
                ).streams(),
            },
    {
        let local_id: u32 = message.header.arg1;
        let remote_id: u32 = message.header.arg0;
        match message.header.command {
            MessageCommand::Open => {
                let destination: String = without_zeros(&decode_lossy(&message.payload));
                if !same_text(&destination, &self.remote) {
                    return Err(
                        RustADBError::ADBRequestFailed(
                            plus(
                                copy_text("device requested non-configured reverse destination "),
                                &destination,
                            ),
                        ),
                    );
                }
                Ok(RelayAction::Connect { device_id: remote_id, port: self.local_port })
            },
            MessageCommand::Write => match self.find(local_id) {
                None => Err(failure("write for unknown reverse stream")),
                Some(i) => {
                    if self.streams[i].1 != remote_id {
                        return Err(failure("reverse stream id mismatch"));
                    }
                    Ok(
                        RelayAction::Deliver {
                            local_id,
                            payload: message.payload,
                            acknowledgement: ADBTransportMessage::bare(
                                MessageCommand::Okay,
                                local_id,
                                remote_id,
                            ),
                        },
                    )
                },
            },
            MessageCommand::Clse => {
                self.forget(local_id);
                Ok(
                    RelayAction::Close {
                        local_id,
                        acknowledgement: ADBTransportMessage::bare(
                            MessageCommand::Clse,
                            local_id,
                            remote_id,
                        ),
                    },
                )
            },
            MessageCommand::Okay => Ok(RelayAction::Nothing),
            command => Err(
                RustADBError::ADBRequestFailed(
                    plus(
                        plus(copy_text("unexpected "), command.name()),
                        " while serving reverse relay",
                    ),
                ),
            ),
        }
    }

    /// Takes bytes of a host connection; those of a stream that is gone are
    /// dropped.
    pub fn on_data(&self, local_id: u32, payload: &[u8]) -> (message: AdbResult<
        Option<ADBTransportMessage>,
    >)
        requires
            self.wf(),
        ensures
            if !self.streams().contains_key(local_id) {
                message is Ok && message->Ok_0 is None
            } else if payload@.len() <= u32::MAX {
                &&& message is Ok
                &&& message->Ok_0 is Some
                &&& message->Ok_0->0@ == packet(
                    MessageCommand::Write,
                    local_id,
                    self.streams()[local_id],
                    payload@,
                )
            } else {
                message is Err && message->Err_0@ == RustADBError::<Seq<char>>::NumberOverflow
            },
    {
        match self.find(local_id) {
            None => Ok(None),
            Some(i) => match ADBTransportMessage::try_new(
                MessageCommand::Write,
                local_id,
                self.streams[i].1,
                payload,
            ) {
                Ok(message) => Ok(Some(message)),
                Err(error) => Err(error),
            },
        }
    }

    /// Takes the end of a host connection.
    pub fn on_closed(&mut self, local_id: u32) -> (message: Option<ADBTransportMessage>)
        requires
            old(self).wf(),
        ensures
            final(self).wf(),
            final(self).remote() == old(self).remote(),
            final(self).port() == old(self).port(),
            final(self).streams() == old(self).streams().remove(local_id),
            if old(self).streams().contains_key(local_id) {
                &&& message is Some
                &&& message->0@ == bare(
                    MessageCommand::Clse,
                    local_id,
                    old(self).streams()[local_id],
                )
            } else {
                message is None
            },
    {
        match self.find(local_id) {
            None => {
                assert(self.streams().remove(local_id) =~= self.streams());
                None
            },
            Some(i) => {
                let remote_id: u32 = self.streams[i].1;
                self.forget(local_id);
                Some(ADBTransportMessage::bare(MessageCommand::Clse, local_id, remote_id))
            },
        }
    }
}

/// Once a stream is closed from either side, no bytes pass through it.
pub proof fn closed_streams_stay_closed(
    remote: Seq<char>,
    port: u16,
    streams: Map<u32, u32>,
    said: Packet,
    after: Packet,
)
    requires
        said.command == MessageCommand::Clse,
        after.command == MessageCommand::Write,
        after.arg1 == said.arg1,
    ensures
        ({
            let closed = relay_next(remote, port, streams, said);
            &&& closed is Ok
            &&& !closed->Ok_0.0.contains_key(said.arg1)
            &&& relay_next(remote, port, closed->Ok_0.0, after) is Err
        }),
{
}

/// A relay leads to any port that stands behind its protocol.
pub proof fn relays_lead_to_ports(port: u16, other: Seq<char>)
    ensures
        relay_port("tcp:"@ + decimal(port as nat)) == Ok::<nat, Seq<char>>(port as nat),
        !"tcp:"@.is_prefix_of(other) ==> relay_port(other) == Err::<nat, Seq<char>>(
            "reverse relay needs tcp:<port>, got "@ + other,
        ),
{
    prefixes_are_taken_off("tcp:"@, decimal(port as nat), other);
    decimals_are_read_back(port as nat, 65535);
}

/// A stream that the device opens to the name of the relay is connected to its port,
/// and one to another name is refused.
pub proof fn streams_to_the_relay_are_connected(
    remote: Seq<char>,
    port: u16,
    streams: Map<u32, u32>,
    said: Packet,
)
    requires
        said.command == MessageCommand::Open,
    ensures
        trim_zeros(lossy(said.payload)) == remote ==> relay_next(remote, port, streams, said) == Ok::<
            (Map<u32, u32>, RelayAction<Packet, Seq<u8>>),
            Seq<char>,
        >((streams, RelayAction::Connect { device_id: said.arg0, port })),
        trim_zeros(lossy(said.payload)) != remote ==> relay_next(remote, port, streams, said)
            == Err::<(Map<u32, u32>, RelayAction<Packet, Seq<u8>>), Seq<char>>(
            "device requested non-configured reverse destination "@ + trim_zeros(
                lossy(said.payload),
            ),
        ),
{
}

/// What the device writes to a stream of the relay reaches its end on the host, and
/// is acknowledged to the end it came from; a write from another end is refused.
pub proof fn writes_reach_their_stream(
    remote: Seq<char>,
    port: u16,
    streams: Map<u32, u32>,
    said: Packet,
)
    requires
        said.command == MessageCommand::Write,
    ensures
        match relay_next(remote, port, streams, said) {
            Ok((left, RelayAction::Deliver { local_id, payload, acknowledgement })) => {
                &&& streams.contains_key(said.arg1)
                &&& streams[said.arg1] == said.arg0
                &&& left == streams
                &&& local_id == said.arg1
                &&& payload == said.payload
                &&& acknowledgement.command == MessageCommand::Okay
                &&& acknowledgement.arg0 == said.arg1
                &&& acknowledgement.arg1 == said.arg0
                &&& acknowledgement.payload.len() == 0
            },
            Ok(_) => false,
            Err(error) => if streams.contains_key(said.arg1) {
                streams[said.arg1] != said.arg0 && error == "reverse stream id mismatch"@
            } else {
                error == "write for unknown reverse stream"@
            },
        },
{
}

/// A stream that the device closes is forgotten, alone, and closed in turn.
pub proof fn closings_are_answered(
    remote: Seq<char>,
    port: u16,
    streams: Map<u32, u32>,
    said: Packet,
    other: u32,
)
    requires
        said.command == MessageCommand::Clse,
        other != said.arg1,
    ensures
        match relay_next(remote, port, streams, said) {
            Ok((left, RelayAction::Close { local_id, acknowledgement })) => {
                &&& !left.contains_key(said.arg1)
                &&& left.contains_key(other) == streams.contains_key(other)
                &&& streams.contains_key(other) ==> left[other] == streams[other]
                &&& local_id == said.arg1
                &&& acknowledgement.command == MessageCommand::Clse
                &&& acknowledgement.arg0 == said.arg1
                &&& acknowledgement.arg1 == said.arg0
                &&& acknowledgement.payload.len() == 0
            },
            _ => false,
        },
{
}

/// An answer changes nothing, and a packet that has no place in a relay is refused by
/// its name.
pub proof fn answers_change_nothing(
    remote: Seq<char>,
    port: u16,
    streams: Map<u32, u32>,
    said: Packet,
)
    ensures
        said.command == MessageCommand::Okay ==> relay_next(remote, port, streams, said) == Ok::<
            (Map<u32, u32>, RelayAction<Packet, Seq<u8>>),
            Seq<char>,
        >((streams, RelayAction::Nothing)),
        said.command == MessageCommand::Cnxn || said.command == MessageCommand::Auth
            || said.command == MessageCommand::Stls ==> relay_next(remote, port, streams, said)
            == Err::<(Map<u32, u32>, RelayAction<Packet, Seq<u8>>), Seq<char>>(
            "unexpected "@ + command_name(said.command) + " while serving reverse relay"@,
        ),
{
}

/// A relay to what is no port says why.
pub proof fn wrong_ports_are_told(text: Seq<char>)
    requires
        unsigned_value(text, 10, 65535) is None,
    ensures
        relay_port("tcp:"@ + text) == Err::<nat, Seq<char>>(
            "invalid reverse TCP port: "@ + unsigned_complaint(text, 10, 65535),
        ),
{
    prefixes_are_taken_off("tcp:"@, text, text);
}

} // verus!
