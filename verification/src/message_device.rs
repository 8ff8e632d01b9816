//! A device that is reached over a packet transport: its connection, and the
//! sessions that are opened on it one at a time.

use crate::bytes::{le32, push_bytes, push_le32};
use crate::command::{command_view, destination, ADBLocalCommand};
use crate::crypto::random_id;
use crate::dispatched::DispatchedADBMessageDevice;
use crate::error::{failed, failure, AdbResult, RustADBError};
use crate::message::{
    bare, command_name, packet, ADBTransportMessage, MessageCommand, Packet, AUTH_RSAPUBLICKEY,
    AUTH_SIGNATURE, AUTH_TOKEN,
};
use crate::reverse_relay::{relay_port, ReverseRelay};
use crate::service::{destination_bytes, open_packet, DispatchedService};
use crate::text::{copy_text, decimal, format_decimal, plus};
use vstd::prelude::*;
use vstd::utf8::*;

verus! {

/// The version of the protocol.
pub const PROTOCOL_VERSION: u32 = 0x0100_0000;

/// The size of the largest payload that the host takes.
pub const MAX_PAYLOAD: u32 = 1_048_576;

/// How many authentication requests are answered.
pub const AUTH_ROUNDS: u8 = 8;

/// How many seconds the device has to answer an authentication reply.
pub const AUTH_SECONDS: u64 = 15;

/// How far the connection of a device has come.
#[derive(Clone, Copy, Debug, PartialEq, Eq, Structural)]
pub enum Connection {
    /// The private key is looked for.
    Seeking,
    /// A private key is made.
    Making,
    /// The transport is opened.
    Opening,
    /// The host has introduced itself.
    Greeting,
    /// The connection is encrypted.
    Upgrading,
    /// A token is signed; so many replies were given before.
    Signing(u8),
    /// The public key is fetched; so many replies were given before.
    Introducing(u8),
    /// So many replies were given.
    Authenticating(u8),
    /// The device is connected.
    Connected,
    /// The connection failed.
    Refused,
}

/// What the connection of a device asks for.
#[derive(Debug)]
pub enum ConnectAction<M, B, E> {
    /// Look for a private key at the path of the key, and say whether it is there.
    SeekKey,
    /// Make a random private key, and write it to the path of the key.
    MakeKey,
    /// Open the transport.
    Open,
    /// Send a packet, and hand back the next one.
    Exchange(M),
    /// Send a packet, and hand back the next one if it comes within seconds.
    ExchangeWithin(M, u64),
    /// Send a packet, and then encrypt the transport.
    SendAndUpgrade(M),
    /// Sign a token with the private key.
    Sign(B),
    /// Fetch the public key in the form that devices read.
    PublicKey,
    /// The device is connected.
    Ready,
    /// The connection failed.
    Fail(E),
}

/// What came of an action.
#[derive(Debug)]
pub enum ConnectEvent<M, B> {
    /// It is done.
    Done,
    /// Whether there is a private key.
    Found(bool),
    /// The packet that came back.
    Packet(M),
    /// The signature, or the public key.
    Bytes(B),
}

/// What an action says.
pub open spec fn connect_view(
    action: ConnectAction<ADBTransportMessage, Vec<u8>, RustADBError<String>>,
) -> ConnectAction<Packet, Seq<u8>, RustADBError<Seq<char>>> {
    match action {
        ConnectAction::SeekKey => ConnectAction::SeekKey,
        ConnectAction::MakeKey => ConnectAction::MakeKey,
        ConnectAction::Open => ConnectAction::Open,
        ConnectAction::Exchange(message) => ConnectAction::Exchange(message@),
        ConnectAction::ExchangeWithin(message, seconds) => ConnectAction::ExchangeWithin(
            message@,
            seconds,
        ),
        ConnectAction::SendAndUpgrade(message) => ConnectAction::SendAndUpgrade(message@),
        ConnectAction::Sign(token) => ConnectAction::Sign(token@),
        ConnectAction::PublicKey => ConnectAction::PublicKey,
        ConnectAction::Ready => ConnectAction::Ready,
        ConnectAction::Fail(error) => ConnectAction::Fail(error@),
    }
}

/// What came of an action, with what packets say.
pub open spec fn connect_event_view(event: ConnectEvent<ADBTransportMessage, Vec<u8>>) -> ConnectEvent<
    Packet,
    Seq<u8>,
> {
    match event {
        ConnectEvent::Done => ConnectEvent::Done,
        ConnectEvent::Found(found) => ConnectEvent::Found(found),
        ConnectEvent::Packet(message) => ConnectEvent::Packet(message@),
        ConnectEvent::Bytes(bytes) => ConnectEvent::Bytes(bytes@),
    }
}

/// What is done about a private key.
#[derive(Clone, Copy, Debug, PartialEq, Eq, Structural)]
pub enum KeyStep {
    /// The key that is there is used.
    Use,
    /// A random key is made and written to its path, and then used.
    Make,
}

/// What is done about a private key that is there, or not.
pub open spec fn key_wanted(found: bool) -> KeyStep {
    if found {
        KeyStep::Use
    } else {
        KeyStep::Make
    }
}

/// Decides what is done about a private key: one that is missing is made.
pub fn key_step(found: bool) -> (step: KeyStep)
    ensures
        step == key_wanted(found),
{
    if found {
        KeyStep::Use
    } else {
        KeyStep::Make
    }
}

/// The packet by which the host introduces itself.
pub open spec fn greeting() -> Packet {
    packet(
        MessageCommand::Cnxn,
        PROTOCOL_VERSION,
        MAX_PAYLOAD,
        encode_utf8("host::adb_client\0"@),
    )
}

/// What a connection does and then waits for.
pub type ConnectStep = (Connection, ConnectAction<Packet, Seq<u8>, RustADBError<Seq<char>>>);

/// A connection that fails.
pub open spec fn refuses(error: RustADBError<Seq<char>>) -> ConnectStep {
    (Connection::Refused, ConnectAction::Fail(error))
}

/// The failure of an authentication message of another type.
pub open spec fn wrong_type(arg0: u32) -> RustADBError<Seq<char>> {
    RustADBError::ADBRequestFailed(
        "Received AUTH message with type != 1 ("@ + decimal(arg0 as nat) + ")"@,
    )
}

/// How authentication goes on with a packet, after so many replies. Replies with
/// a signature and with the public key take turns, beginning with a signature.
pub open spec fn auth_next(replies: u8, said: Packet) -> ConnectStep {
    if replies >= AUTH_ROUNDS {
        refuses(
            RustADBError::ADBRequestFailed("Android device did not finish RSA authorization"@),
        )
    } else {
        match said.command {
            MessageCommand::Cnxn => (Connection::Connected, ConnectAction::Ready),
            MessageCommand::Auth => if said.arg0 != AUTH_TOKEN {
                refuses(wrong_type(said.arg0))
            } else if replies % 2 == 0 {
                (Connection::Signing(replies), ConnectAction::Sign(said.payload))
            } else {
                (Connection::Introducing(replies), ConnectAction::PublicKey)
            },
            command => refuses(
                RustADBError::WrongResponseReceived(
                    "Expected CNXN or AUTH command"@,
                    command_name(command),
                ),
            ),
        }
    }
}

/// The reply to an authentication request.
pub open spec fn auth_reply(replies: u8, kind: u32, payload: Seq<u8>) -> ConnectStep {
    if payload.len() <= u32::MAX {
        (
            Connection::Authenticating((replies + 1) as u8),
            ConnectAction::ExchangeWithin(
                packet(MessageCommand::Auth, kind, 0, payload),
                AUTH_SECONDS,
            ),
        )
    } else {
        refuses(RustADBError::NumberOverflow)
    }
}

/// Whether an event is one that a connection can get.
pub open spec fn connect_fits<M, B>(connection: Connection, event: ConnectEvent<M, B>) -> bool {
    match connection {
        Connection::Seeking => event is Found,
        Connection::Making | Connection::Opening | Connection::Upgrading => event is Done,
        Connection::Greeting | Connection::Authenticating(_) => event is Packet,
        Connection::Signing(replies) | Connection::Introducing(replies) => event is Bytes && replies
            < AUTH_ROUNDS,
        Connection::Connected | Connection::Refused => false,
    }
}

/// How a connection goes on.
pub open spec fn connect_next(
    connection: Connection,
    event: ConnectEvent<Packet, Seq<u8>>,
) -> ConnectStep {
    match (connection, event) {
        (Connection::Seeking, ConnectEvent::Found(found)) => match key_wanted(found) {
            KeyStep::Use => (Connection::Opening, ConnectAction::Open),
            KeyStep::Make => (Connection::Making, ConnectAction::MakeKey),
        },
        (Connection::Making, _) => (Connection::Opening, ConnectAction::Open),
        (Connection::Opening, _) => (Connection::Greeting, ConnectAction::Exchange(greeting())),
        (Connection::Greeting, ConnectEvent::Packet(said)) => match said.command {
            MessageCommand::Stls => (
                Connection::Upgrading,
                ConnectAction::SendAndUpgrade(bare(MessageCommand::Stls, 1, 0)),
            ),
            MessageCommand::Cnxn => (Connection::Connected, ConnectAction::Ready),
            MessageCommand::Auth => auth_next(0, said),
            command => refuses(
                RustADBError::WrongResponseReceived(
                    "Expected CNXN, STLS or AUTH command"@,
                    command_name(command),
                ),
            ),
        },
        (Connection::Upgrading, _) => (Connection::Connected, ConnectAction::Ready),
        (Connection::Authenticating(replies), ConnectEvent::Packet(said)) => auth_next(
            replies,
            said,
        ),
        (Connection::Signing(replies), ConnectEvent::Bytes(bytes)) => auth_reply(
            replies,
            AUTH_SIGNATURE,
            bytes,
        ),
        (Connection::Introducing(replies), ConnectEvent::Bytes(bytes)) => auth_reply(
            replies,
            AUTH_RSAPUBLICKEY,
            bytes.push(0),
        ),
        _ => (connection, ConnectAction::Ready),
    }
}

/// How many steps a connection can still take.
pub open spec fn connect_left(connection: Connection) -> nat {
    match connection {
        Connection::Seeking => 103,
        Connection::Making => 102,
        Connection::Opening => 101,
        Connection::Greeting => 100,
        Connection::Upgrading => 1,
        Connection::Signing(replies) | Connection::Introducing(replies) => (50 - 2 * replies)
            as nat,
        Connection::Authenticating(replies) => (51 - 2 * replies) as nat,
        Connection::Connected | Connection::Refused => 0,
    }
}

/// A connection ends: at most eight authentication requests are answered.
pub proof fn connections_end(connection: Connection, event: ConnectEvent<Packet, Seq<u8>>)
    requires
        connect_fits(connection, event),
        connection matches Connection::Authenticating(replies) ==> replies <= AUTH_ROUNDS,
    ensures
        ({
            let next = connect_next(connection, event).0;
            &&& connect_left(next) < connect_left(connection)
            &&& next matches Connection::Authenticating(replies) ==> 0 < replies <= AUTH_ROUNDS
        }),
{
}

/// The transport is opened once there is a private key: one that is there is left
/// alone, and one that is missing is made first.
pub proof fn keys_come_first(connection: Connection, event: ConnectEvent<Packet, Seq<u8>>)
    requires
        connect_fits(connection, event),
    ensures
        ({
            let action = connect_next(connection, event).1;
            &&& action is MakeKey <==> connection == Connection::Seeking && event == (
                ConnectEvent::<Packet, Seq<u8>>::Found(false))
            &&& action is Open <==> connection == Connection::Making || connection
                == Connection::Seeking && event == (ConnectEvent::<Packet, Seq<u8>>::Found(true))
        }),
{
}

/// The first reply to an authentication request is a signature, and after each
/// reply comes one of the other sort.
pub proof fn replies_take_turns(replies: u8, said: Packet)
    requires
        replies < AUTH_ROUNDS,
        said.command == MessageCommand::Auth,
        said.arg0 == AUTH_TOKEN,
    ensures
        auth_next(replies, said).0 == if replies % 2 == 0 {
            Connection::Signing(replies)
        } else {
            Connection::Introducing(replies)
        },
        auth_next(0, said).0 == Connection::Signing(0),
{
}

/// A session on a device that is not shared.
pub type ADBSession = DispatchedService;

/// The answer of a device to an attempt to open a session.
pub open spec fn session_opened(local_id: u32, said: Packet) -> Result<ADBSession, Seq<char>> {
    if said.command != MessageCommand::Okay {
        Err(
            "Open session failed: got "@ + command_name(said.command)
                + " in response instead of OKAY"@,
        )
    } else if said.arg1 != local_id {
        Err(
            "Open session failed: responses used "@ + decimal(said.arg1 as nat)
                + " for our local_id instead of "@ + decimal(local_id as nat),
        )
    } else {
        Ok(DispatchedService { local_id, remote_id: said.arg0 })
    }
}

/// A packet that opens a session, with the identifier that was drawn for it.
pub open spec fn opens(message: AdbResult<(u32, ADBTransportMessage)>, text: Seq<char>) -> bool {
    if destination_bytes(text).len() <= u32::MAX {
        &&& message is Ok
        &&& message->Ok_0.1@ == packet(
            MessageCommand::Open,
            message->Ok_0.0,
            0,
            destination_bytes(text),
        )
    } else {
        message is Err && message->Err_0@ == RustADBError::<Seq<char>>::NumberOverflow
    }
}

/// A device that is reached over a packet transport.
#[derive(Debug)]
pub struct ADBMessageDevice {
    connection: Connection,
    key_path: String,
}

impl ADBMessageDevice {
    /// How far the connection has come.
    pub closed spec fn connection(&self) -> Connection {
        self.connection
    }

    /// Where the private key is.
    pub closed spec fn key_path(&self) -> Seq<char> {
        self.key_path@
    }

    /// At most so many authentication requests were answered.
    pub open spec fn wf(&self) -> bool {
        match self.connection() {
            Connection::Authenticating(replies) => replies <= AUTH_ROUNDS,
            Connection::Signing(replies) | Connection::Introducing(replies) => replies
                < AUTH_ROUNDS,
            _ => true,
        }
    }

    /// Begins the connection of a device, whose private key is at a path, or is put
    /// there.
    pub fn new(adb_private_key_path: String) -> (begun: (
        ADBMessageDevice,
        ConnectAction<ADBTransportMessage, Vec<u8>, RustADBError<String>>,
    ))
        ensures
            begun.0.wf(),
            begun.0.connection() == Connection::Seeking,
            begun.0.key_path() == adb_private_key_path@,
            begun.1 is SeekKey,
    {
        (
            ADBMessageDevice { connection: Connection::Seeking, key_path: adb_private_key_path },
            ConnectAction::SeekKey,
        )
    }

    /// Where the private key is.
    pub fn private_key_path(&self) -> (path: &str)
        ensures
            path@ == self.key_path(),
    {
        self.key_path.as_str()
    }

    /// Whether the device is connected.
    pub fn is_connected(&self) -> (connected: bool)
        ensures
            connected == (self.connection() is Connected),
    {
        match self.connection {
            Connection::Connected => true,
            _ => false,
        }
    }

    /// Goes on with authentication.
    fn authenticate(
        &mut self,
        replies: u8,
        message: ADBTransportMessage,
    ) -> (action: ConnectAction<ADBTransportMessage, Vec<u8>, RustADBError<String>>)
        ensures
            final(self).wf(),
            final(self).key_path() == old(self).key_path(),
            (final(self).connection(), connect_view(action)) == auth_next(replies, message@),
    {
        self.connection = Connection::Refused;
        if replies >= AUTH_ROUNDS {
            return ConnectAction::Fail(
                failure("Android device did not finish RSA authorization"),
            );
        }
        match message.header.command {
            MessageCommand::Cnxn => {
                self.connection = Connection::Connected;
                ConnectAction::Ready
            },
            MessageCommand::Auth => {
                if message.header.arg0 != AUTH_TOKEN {
                    let number: String = format_decimal(message.header.arg0 as u64);
                    return ConnectAction::Fail(
                        RustADBError::ADBRequestFailed(
                            plus(
                                plus(copy_text("Received AUTH message with type != 1 ("), &number),
                                ")",
                            ),
                        ),
                    );
                }
                if replies % 2 == 0 {
                    self.connection = Connection::Signing(replies);
                    ConnectAction::Sign(message.payload)
                } else {
                    self.connection = Connection::Introducing(replies);
                    ConnectAction::PublicKey
                }
            },
            command => ConnectAction::Fail(
                RustADBError::WrongResponseReceived(
                    copy_text("Expected CNXN or AUTH command"),
                    copy_text(command.name()),
                ),
            ),
        }
    }

    /// Replies to an authentication request.
    fn reply(&mut self, replies: u8, kind: u32, payload: &[u8]) -> (action: ConnectAction<
        ADBTransportMessage,
        Vec<u8>,
        RustADBError<String>,
    >)
        requires
            replies < AUTH_ROUNDS,
        ensures
            final(self).wf(),
            final(self).key_path() == old(self).key_path(),
            (final(self).connection(), connect_view(action)) == auth_reply(
                replies,
                kind,
                payload@,
            ),
    {
        match ADBTransportMessage::try_new(MessageCommand::Auth, kind, 0, payload) {
            Ok(message) => {
                self.connection = Connection::Authenticating(replies + 1);
                ConnectAction::ExchangeWithin(message, AUTH_SECONDS)
            },
            Err(error) => {
                self.connection = Connection::Refused;
                ConnectAction::Fail(error)
            },
        }
    }

    /// Goes on with the connection.
    pub fn on_event(&mut self, event: ConnectEvent<ADBTransportMessage, Vec<u8>>) -> (action:
        ConnectAction<ADBTransportMessage, Vec<u8>, RustADBError<String>>)
        requires
            old(self).wf(),
            connect_fits(old(self).connection(), event),
        ensures
            final(self).wf(),
            final(self).key_path() == old(self).key_path(),
            (final(self).connection(), connect_view(action)) == connect_next(
                old(self).connection(),
                connect_event_view(event),
            ),
    {
        match (self.connection, event) {
            (Connection::Seeking, ConnectEvent::Found(found)) => match key_step(found) {
                KeyStep::Use => {
                    self.connection = Connection::Opening;
                    ConnectAction::Open
                },
                KeyStep::Make => {
                    self.connection = Connection::Making;
                    ConnectAction::MakeKey
                },
            },
            (Connection::Making, _) => {
                self.connection = Connection::Opening;
                ConnectAction::Open
            },
            (Connection::Opening, _) => {
                let name: &str = "host::adb_client\0";
                proof {
                    reveal_strlit("host::adb_client\0");
                    is_ascii_chars_encode_utf8(name@);
                }
                match ADBTransportMessage::try_new(
                    MessageCommand::Cnxn,
                    PROTOCOL_VERSION,
                    MAX_PAYLOAD,
                    name.as_bytes(),
                ) {
                    Ok(message) => {
                        self.connection = Connection::Greeting;
                        ConnectAction::Exchange(message)
                    },
                    Err(error) => ConnectAction::Fail(error),
                }
            },
            (Connection::Greeting, ConnectEvent::Packet(message)) => match message.header.command {
                MessageCommand::Stls => {
                    self.connection = Connection::Upgrading;
                    ConnectAction::SendAndUpgrade(
                        ADBTransportMessage::bare(MessageCommand::Stls, 1, 0),
                    )
                },
                MessageCommand::Cnxn => {
                    self.connection = Connection::Connected;
                    ConnectAction::Ready
                },
                MessageCommand::Auth => self.authenticate(0, message),
                command => {
                    self.connection = Connection::Refused;
                    ConnectAction::Fail(
                        RustADBError::WrongResponseReceived(
                            copy_text("Expected CNXN, STLS or AUTH command"),
                            copy_text(command.name()),
                        ),
                    )
                },
            },
            (Connection::Upgrading, _) => {
                self.connection = Connection::Connected;
                ConnectAction::Ready
            },
            (Connection::Authenticating(replies), ConnectEvent::Packet(message)) => {
                self.authenticate(replies, message)
            },
            (Connection::Signing(replies), ConnectEvent::Bytes(bytes)) => self.reply(
                replies,
                AUTH_SIGNATURE,
                &bytes,
            ),
            (Connection::Introducing(replies), ConnectEvent::Bytes(bytes)) => {
                let mut public_key: Vec<u8> = bytes;
                public_key.push(0);
                self.reply(replies, AUTH_RSAPUBLICKEY, &public_key)
            },
            _ => ConnectAction::Ready,
        }
    }

    /// Opens a session for a service. Its identifier is drawn at random.
    pub fn open_session(&self, command: &ADBLocalCommand<&str>) -> (opened: AdbResult<
        (u32, ADBTransportMessage),
    >)
        ensures
            opens(opened, destination(command_view(*command))),
    {
        let local_id: u32 = random_id();
        match open_packet(local_id, &command.text()) {
            Ok(message) => Ok((local_id, message)),
            Err(error) => Err(error),
        }
    }

    /// Takes the answer to an attempt to open a session.
    pub fn on_opened(&self, local_id: u32, message: &ADBTransportMessage) -> (session: AdbResult<
        ADBSession,
    >)
        ensures
            match session_opened(local_id, message@) {
                Ok(opened) => session is Ok && session->Ok_0 == opened,
                Err(error) => failed(session, error),
            },
    {
        if message.header.command != MessageCommand::Okay {
            return Err(
                RustADBError::ADBRequestFailed(
                    plus(
                        plus(
                            copy_text("Open session failed: got "),
                            message.header.command.name(),
                        ),
                        " in response instead of OKAY",
                    ),
                ),
            );
        }
        if message.header.arg1 != local_id {
            return Err(
                RustADBError::ADBRequestFailed(
                    plus(
                        plus(
                            plus(
                                copy_text("Open session failed: responses used "),
                                &format_decimal(message.header.arg1 as u64),
                            ),
                            " for our local_id instead of ",
                        ),
                        &format_decimal(local_id as u64),
                    ),
                ),
            );
        }
        Ok(DispatchedService { local_id, remote_id: message.header.arg0 })
    }

    /// Adds a reverse route: opens the session that asks for it.
    pub fn reverse_forward(&self, remote: &str, local: &str) -> (opened: AdbResult<
        (u32, ADBTransportMessage),
    >)
        ensures
            opens(opened, destination(ADBLocalCommand::Reverse(remote@, local@))),
    {
        self.open_session(&ADBLocalCommand::Reverse(remote, local))
    }

    /// Serves a reverse route that the device has granted. A host endpoint that is
    /// no TCP port is refused.
    pub fn run_reverse_relay(&self, remote: String, local: &str) -> (relay: AdbResult<
        ReverseRelay,
    >)
        ensures
            match relay_port(local@) {
                Ok(port) => {
                    &&& relay is Ok
                    &&& relay->Ok_0.wf()
                    &&& relay->Ok_0.remote() == remote@
                    &&& relay->Ok_0.port() == port
                    &&& relay->Ok_0.streams() == Map::<u32, u32>::empty()
                },
                Err(error) => failed(relay, error),
            },
    {
        ReverseRelay::new(remote, local)
    }

    /// Removes a reverse route: opens the session that asks for it.
    pub fn remove_reverse_forward(&self, remote: &str) -> (opened: AdbResult<
        (u32, ADBTransportMessage),
    >)
        ensures
            opens(opened, destination(ADBLocalCommand::ReverseRemove(remote@))),
    {
        self.open_session(&ADBLocalCommand::ReverseRemove(remote))
    }

    /// Ends a session of the file service: the packet that says so, which the
    /// device acknowledges before it closes the stream.
    pub fn end_transaction(&self, session: &ADBSession) -> (message: AdbResult<
        ADBTransportMessage,
    >)
        ensures
            message is Ok,
            message->Ok_0@ == packet(
                MessageCommand::Write,
                session.local_id,
                session.remote_id,
                encode_utf8("QUIT"@) + le32(0),
            ),
    {
        let mut bytes: Vec<u8> = Vec::new();
        push_bytes(&mut bytes, "QUIT".as_bytes());
        push_le32(&mut bytes, 0);
        proof {
            reveal_strlit("QUIT");
            is_ascii_chars_encode_utf8("QUIT"@);
            assert(bytes@ =~= encode_utf8("QUIT"@) + le32(0));
        }
        session.write(&bytes)
    }

    /// Hands the transport of a connected device to a dispatcher.
    pub fn into_dispatched(self) -> (device: DispatchedADBMessageDevice)
        requires
            self.connection() is Connected,
        ensures
            device.wf(),
            device.fresh(),
    {
        DispatchedADBMessageDevice::new()
    }
}

/// The host greets with the version of the protocol, the largest payload it takes and
/// its name.
pub proof fn greetings_name_the_host()
    ensures
        greeting().command == MessageCommand::Cnxn,
        greeting().arg0 == 0x0100_0000,
        greeting().arg1 == 0x10_0000,
        greeting().payload == encode_utf8("host::adb_client\0"@),
        forall|event: ConnectEvent<Packet, Seq<u8>>| #[trigger]
            connect_next(Connection::Opening, event) == (
                Connection::Greeting,
                ConnectAction::<Packet, Seq<u8>, RustADBError<Seq<char>>>::Exchange(greeting()),
            ),
{
}

/// A greeting that is returned connects at once; one that is answered by a call for
/// encryption is answered in kind, and the encrypted stream is connected.
pub proof fn greetings_are_answered(said: Packet, event: ConnectEvent<Packet, Seq<u8>>)
    ensures
        ({
            let (next, action) = connect_next(Connection::Greeting, ConnectEvent::Packet(said));
            &&& said.command == MessageCommand::Cnxn ==> next is Connected && action is Ready
            &&& said.command == MessageCommand::Stls ==> {
                &&& next is Upgrading
                &&& action is SendAndUpgrade
                &&& action->SendAndUpgrade_0.command == MessageCommand::Stls
                &&& action->SendAndUpgrade_0.arg0 == 1
                &&& action->SendAndUpgrade_0.arg1 == 0
                &&& action->SendAndUpgrade_0.payload.len() == 0
                &&& connect_next(next, event).0 is Connected
                &&& connect_next(next, event).1 is Ready
            }
            &&& said.command == MessageCommand::Open || said.command == MessageCommand::Write
                || said.command == MessageCommand::Okay || said.command == MessageCommand::Clse
                ==> next is Refused && action
                == ConnectAction::<Packet, Seq<u8>, RustADBError<Seq<char>>>::Fail(
                RustADBError::WrongResponseReceived(
                    "Expected CNXN, STLS or AUTH command"@,
                    command_name(said.command),
                ),
            )
        }),
{
}

/// Whether a packet authenticates by something, and is given fifteen seconds.
pub open spec fn authenticates(
    step: ConnectStep,
    replies: int,
    kind: u32,
    payload: Seq<u8>,
) -> bool {
    match step {
        (Connection::Authenticating(next), ConnectAction::ExchangeWithin(sent, seconds)) => {
            &&& next == replies
            &&& seconds == 15
            &&& sent.command == MessageCommand::Auth
            &&& sent.arg0 == kind
            &&& sent.arg1 == 0
            &&& sent.payload == payload
        },
        _ => false,
    }
}

/// A device that asks for authentication is sent its own token, signed; one that asks
/// again is shown the key, ended by a zero.
pub proof fn tokens_are_signed_before_the_key_is_shown(
    said: Packet,
    again: Packet,
    signature: Seq<u8>,
    key: Seq<u8>,
)
    requires
        said.command == MessageCommand::Auth,
        said.arg0 == 1,
        again.command == MessageCommand::Auth,
        again.arg0 == 1,
        signature.len() <= u32::MAX,
        key.len() < u32::MAX,
    ensures
        ({
            let asked = connect_next(Connection::Greeting, ConnectEvent::Packet(said));
            let signed = connect_next(asked.0, ConnectEvent::Bytes(signature));
            let doubted = connect_next(signed.0, ConnectEvent::Packet(again));
            let shown = connect_next(doubted.0, ConnectEvent::Bytes(key));
            &&& asked.1 == ConnectAction::<Packet, Seq<u8>, RustADBError<Seq<char>>>::Sign(
                said.payload,
            )
            &&& authenticates(signed, 1, 2, signature)
            &&& doubted.1 is PublicKey
            &&& authenticates(shown, 2, 3, key + seq![0u8])
        }),
{
    assert(key.push(0) =~= key + seq![0u8]);
}

/// A device that has been answered fewer than eight times connects by its greeting,
/// and one that has been answered eight times is given up whatever it says.
pub proof fn authentication_has_eight_rounds(replies: u8, said: Packet)
    ensures
        replies < 8 && said.command == MessageCommand::Cnxn ==> connect_next(
            Connection::Authenticating(replies),
            ConnectEvent::Packet(said),
        ).0 is Connected,
        replies < 8 && said.command == MessageCommand::Auth && said.arg0 == 1 ==> !(connect_next(
            Connection::Authenticating(replies),
            ConnectEvent::Packet(said),
        ).0 is Refused),
        replies < 8 && said.command == MessageCommand::Auth && said.arg0 != 1 ==> connect_next(
            Connection::Authenticating(replies),
            ConnectEvent::Packet(said),
        ).1 == ConnectAction::<Packet, Seq<u8>, RustADBError<Seq<char>>>::Fail(
            RustADBError::ADBRequestFailed(
                "Received AUTH message with type != 1 ("@ + decimal(said.arg0 as nat) + ")"@,
            ),
        ),
        replies < 8 && said.command != MessageCommand::Auth && said.command
            != MessageCommand::Cnxn ==> connect_next(
            Connection::Authenticating(replies),
            ConnectEvent::Packet(said),
        ).1 == ConnectAction::<Packet, Seq<u8>, RustADBError<Seq<char>>>::Fail(
            RustADBError::WrongResponseReceived(
                "Expected CNXN or AUTH command"@,
                command_name(said.command),
            ),
        ),
        replies >= 8 ==> connect_next(
            Connection::Authenticating(replies),
            ConnectEvent::Packet(said),
        ).1 == ConnectAction::<Packet, Seq<u8>, RustADBError<Seq<char>>>::Fail(
            RustADBError::ADBRequestFailed("Android device did not finish RSA authorization"@),
        ),
{
}

/// A session opens on the answer that names its own end, with the end that answered;
/// another answer says what came instead.
pub proof fn sessions_open_on_their_answer(local_id: u32, said: Packet)
    ensures
        said.command == MessageCommand::Okay && said.arg1 == local_id ==> session_opened(
            local_id,
            said,
        ) == Ok::<ADBSession, Seq<char>>(
            DispatchedService { local_id, remote_id: said.arg0 },
        ),
        said.command != MessageCommand::Okay ==> session_opened(local_id, said) == Err::<
            ADBSession,
            Seq<char>,
        >(
            "Open session failed: got "@ + command_name(said.command)
                + " in response instead of OKAY"@,
        ),
        said.command == MessageCommand::Okay && said.arg1 != local_id ==> session_opened(
            local_id,
            said,
        ) == Err::<ADBSession, Seq<char>>(
            "Open session failed: responses used "@ + decimal(said.arg1 as nat)
                + " for our local_id instead of "@ + decimal(local_id as nat),
        ),
{
}

/// A session is asked for by the name of its service, for an end that the device has
/// not named yet.
pub proof fn sessions_are_asked_by_name(
    message: AdbResult<(u32, ADBTransportMessage)>,
    text: Seq<char>,
)
    requires
        opens(message, text),
    ensures
        message is Ok <==> destination_bytes(text).len() <= u32::MAX,
        message is Ok ==> {
            &&& message->Ok_0.1@.command == MessageCommand::Open
            &&& message->Ok_0.1@.arg0 == message->Ok_0.0
            &&& message->Ok_0.1@.arg1 == 0
            &&& message->Ok_0.1@.payload == destination_bytes(text)
        },
{
}

} // verus!
