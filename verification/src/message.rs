//! The packets of the ADB transport protocol.

use crate::bytes::{le32, le32_value, lemma_le32, push_bytes, push_le32, read_le32};
use crate::error::{failed, failure, AdbResult, RustADBError};
use vstd::prelude::*;
use vstd::utf8::*;

verus! {

/// The commands of the transport protocol.
#[derive(Clone, Copy, Debug, PartialEq, Eq, Structural)]
pub enum MessageCommand {
    /// Connect.
    Cnxn,
    /// Close a stream.
    Clse,
    /// Authenticate.
    Auth,
    /// Open a stream.
    Open,
    /// Data of a stream.
    Write,
    /// A stream is ready.
    Okay,
    /// Start TLS.
    Stls,
}

/// The number of a command: its four letters, first letter lowest.
pub open spec fn command_code(command: MessageCommand) -> u32 {
    match command {
        MessageCommand::Cnxn => 0x4e58_4e43,
        MessageCommand::Clse => 0x4553_4c43,
        MessageCommand::Auth => 0x4854_5541,
        MessageCommand::Open => 0x4e45_504f,
        MessageCommand::Write => 0x4554_5257,
        MessageCommand::Okay => 0x5941_4b4f,
        MessageCommand::Stls => 0x534c_5453,
    }
}

/// The name of a command.
pub open spec fn command_name(command: MessageCommand) -> Seq<char> {
    match command {
        MessageCommand::Cnxn => "CNXN"@,
        MessageCommand::Clse => "CLSE"@,
        MessageCommand::Auth => "AUTH"@,
        MessageCommand::Open => "OPEN"@,
        MessageCommand::Write => "WRTE"@,
        MessageCommand::Okay => "OKAY"@,
        MessageCommand::Stls => "STLS"@,
    }
}

impl MessageCommand {
    /// The number of the command.
    pub fn code(self) -> (code: u32)
        ensures
            code == command_code(self),
    {
        match self {
            MessageCommand::Cnxn => 0x4e58_4e43,
            MessageCommand::Clse => 0x4553_4c43,
            MessageCommand::Auth => 0x4854_5541,
            MessageCommand::Open => 0x4e45_504f,
            MessageCommand::Write => 0x4554_5257,
            MessageCommand::Okay => 0x5941_4b4f,
            MessageCommand::Stls => 0x534c_5453,
        }
    }

    /// The name of the command.
    pub fn name(self) -> (name: &'static str)
        ensures
            name@ == command_name(self),
    {
        match self {
            MessageCommand::Cnxn => "CNXN",
            MessageCommand::Clse => "CLSE",
            MessageCommand::Auth => "AUTH",
            MessageCommand::Open => "OPEN",
            MessageCommand::Write => "WRTE",
            MessageCommand::Okay => "OKAY",
            MessageCommand::Stls => "STLS",
        }
    }

    /// The command with a number.
    pub fn from_code(code: u32) -> (command: Option<MessageCommand>)
        ensures
            match command {
                Some(command) => command_code(command) == code,
                None => forall|command: MessageCommand| command_code(command) != code,
            },
    {
        if code == 0x4e58_4e43 {
            Some(MessageCommand::Cnxn)
        } else if code == 0x4553_4c43 {
            Some(MessageCommand::Clse)
        } else if code == 0x4854_5541 {
            Some(MessageCommand::Auth)
        } else if code == 0x4e45_504f {
            Some(MessageCommand::Open)
        } else if code == 0x4554_5257 {
            Some(MessageCommand::Write)
        } else if code == 0x5941_4b4f {
            Some(MessageCommand::Okay)
        } else if code == 0x534c_5453 {
            Some(MessageCommand::Stls)
        } else {
            None
        }
    }
}

/// No two commands share a number.
pub proof fn command_codes_differ(left: MessageCommand, right: MessageCommand)
    requires
        command_code(left) == command_code(right),
    ensures
        left == right,
{
}

/// The authentication message that carries a token.
pub const AUTH_TOKEN: u32 = 1;

/// The authentication message that carries a signature.
pub const AUTH_SIGNATURE: u32 = 2;

/// The authentication message that carries a public key.
pub const AUTH_RSAPUBLICKEY: u32 = 3;

/// The header of a packet.
#[derive(Clone, Copy, Debug, PartialEq, Eq, Structural)]
pub struct ADBTransportMessageHeader {
    /// The command.
    pub command: MessageCommand,
    /// The first argument, most often the identifier of the sender.
    pub arg0: u32,
    /// The second argument, most often the identifier of the receiver.
    pub arg1: u32,
    /// The length of the payload.
    pub data_length: u32,
    /// The checksum of the payload.
    pub data_crc32: u32,
    /// The number of the command with every bit flipped.
    pub magic: u32,
}

/// The checksum of a payload: the sum of its bytes.
pub open spec fn byte_sum(data: Seq<u8>) -> nat
    decreases data.len(),
{
    if data.len() == 0 {
        0
    } else {
        byte_sum(data.drop_last()) + data.last() as nat
    }
}

/// The bytes of a header.
pub open spec fn header_bytes(header: ADBTransportMessageHeader) -> Seq<u8> {
    le32(command_code(header.command)) + le32(header.arg0) + le32(header.arg1) + le32(
        header.data_length,
    ) + le32(header.data_crc32) + le32(header.magic)
}

impl ADBTransportMessageHeader {
    /// The command.
    pub fn command(&self) -> (command: MessageCommand)
        ensures
            command == self.command,
    {
        self.command
    }

    /// The first argument.
    pub fn arg0(&self) -> (arg: u32)
        ensures
            arg == self.arg0,
    {
        self.arg0
    }

    /// The second argument.
    pub fn arg1(&self) -> (arg: u32)
        ensures
            arg == self.arg1,
    {
        self.arg1
    }

    /// The sum of the bytes of a payload, modulo 2^32.
    pub fn compute_crc32(data: &[u8]) -> (sum: u32)
        ensures
            sum == byte_sum(data@) % 0x1_0000_0000,
    {
        let mut sum: u64 = 0;
        let mut i: usize = 0;
        assert(data@.take(0) =~= seq![]);
        while i < data.len()
            invariant
                i <= data@.len(),
                sum < 0x1_0000_0000,
                sum == byte_sum(data@.take(i as int)) % 0x1_0000_0000,
            decreases data@.len() - i,
        {
            assert(data@.take(i + 1).drop_last() =~= data@.take(i as int));
            sum = (sum + data[i] as u64) % 0x1_0000_0000;
            i = i + 1;
        }
        assert(data@.take(data@.len() as int) =~= data@);
        sum as u32
    }

    /// The bytes of the header.
    pub fn as_bytes(&self) -> (bytes: Vec<u8>)
        ensures
            bytes@ == header_bytes(*self),
            bytes@.len() == 24,
    {
        let mut bytes: Vec<u8> = Vec::new();
        push_le32(&mut bytes, self.command.code());
        push_le32(&mut bytes, self.arg0);
        push_le32(&mut bytes, self.arg1);
        push_le32(&mut bytes, self.data_length);
        push_le32(&mut bytes, self.data_crc32);
        push_le32(&mut bytes, self.magic);
        assert(bytes@ =~= header_bytes(*self));
        bytes
    }

    /// Reads a header. A number that is no command is refused.
    pub fn parse(bytes: &[u8]) -> (header: AdbResult<ADBTransportMessageHeader>)
        requires
            bytes@.len() == 24,
        ensures
            match header_read(bytes@) {
                Some(read) => header is Ok && header->Ok_0 == read,
                None => failed(header, "unknown ADB command"@),
            },
    {
        assert(bytes@.skip(0) =~= bytes@);
        match MessageCommand::from_code(read_le32(bytes, 0)) {
            Some(command) => {
                proof {
                    let known = choose|known: MessageCommand|
                        command_code(known) == le32_value(bytes@);
                    if known != command {
                        command_codes_differ(known, command);
                    }
                }
                Ok(
                    ADBTransportMessageHeader {
                        command,
                        arg0: read_le32(bytes, 4),
                        arg1: read_le32(bytes, 8),
                        data_length: read_le32(bytes, 12),
                        data_crc32: read_le32(bytes, 16),
                        magic: read_le32(bytes, 20),
                    },
                )
            },
            None => Err(failure("unknown ADB command")),
        }
    }
}

/// The header that bytes hold, where the first of its numbers is a command.
pub open spec fn header_read(bytes: Seq<u8>) -> Option<ADBTransportMessageHeader> {
    if exists|command: MessageCommand| command_code(command) == le32_value(bytes) {
        Some(
            ADBTransportMessageHeader {
                command: choose|command: MessageCommand|
                    command_code(command) == le32_value(bytes),
                arg0: le32_value(bytes.skip(4)) as u32,
                arg1: le32_value(bytes.skip(8)) as u32,
                data_length: le32_value(bytes.skip(12)) as u32,
                data_crc32: le32_value(bytes.skip(16)) as u32,
                magic: le32_value(bytes.skip(20)) as u32,
            },
        )
    } else {
        None
    }
}

/// Reading the bytes of a header gives the header back.
pub proof fn headers_round_trip(header: ADBTransportMessageHeader)
    ensures
        header_bytes(header).len() == 24,
        header_read(header_bytes(header)) == Some(header),
{
    let bytes = header_bytes(header);
    lemma_le32(command_code(header.command));
    lemma_le32(header.arg0);
    lemma_le32(header.arg1);
    lemma_le32(header.data_length);
    lemma_le32(header.data_crc32);
    lemma_le32(header.magic);
    assert(command_code(header.command) == le32_value(bytes));
    let command = choose|command: MessageCommand| command_code(command) == le32_value(bytes);
    if command != header.command {
        command_codes_differ(command, header.command);
    }
}

/// A packet.
#[derive(Debug)]
pub struct ADBTransportMessage {
    /// The header.
    pub header: ADBTransportMessageHeader,
    /// The payload.
    pub payload: Vec<u8>,
}

/// What a packet says.
#[verifier::ext_equal]
pub ghost struct Packet {
    /// The command.
    pub command: MessageCommand,
    /// The first argument.
    pub arg0: u32,
    /// The second argument.
    pub arg1: u32,
    /// The length that the header announces.
    pub length: u32,
    /// The checksum that the header announces.
    pub sum: u32,
    /// The number that the header ends with.
    pub magic: u32,
    /// The payload.
    pub payload: Seq<u8>,
}

impl Packet {
    /// Whether the header describes the command and the payload.
    pub open spec fn whole(self) -> bool {
        &&& self.length == self.payload.len()
        &&& self.sum == byte_sum(self.payload) % 0x1_0000_0000
        &&& self.magic == command_code(self.command) ^ 0xffff_ffffu32
    }
}

/// A packet with a payload, which its header describes.
pub open spec fn packet(command: MessageCommand, arg0: u32, arg1: u32, payload: Seq<u8>) -> Packet {
    Packet {
        command,
        arg0,
        arg1,
        length: payload.len() as u32,
        sum: (byte_sum(payload) % 0x1_0000_0000) as u32,
        magic: command_code(command) ^ 0xffff_ffffu32,
        payload,
    }
}

/// A packet without a payload.
pub open spec fn bare(command: MessageCommand, arg0: u32, arg1: u32) -> Packet {
    packet(command, arg0, arg1, seq![])
}

/// The header of a packet that is built describes it.
pub proof fn built_packets_are_whole(
    command: MessageCommand,
    arg0: u32,
    arg1: u32,
    payload: Seq<u8>,
)
    requires
        payload.len() <= u32::MAX,
    ensures
        packet(command, arg0, arg1, payload).whole(),
        bare(command, arg0, arg1).whole(),
{
}

/// The contents of a list of packets.
pub open spec fn packets(list: Seq<ADBTransportMessage>) -> Seq<Packet> {
    list.map_values(|message: ADBTransportMessage| message@)
}

impl ADBTransportMessage {
    /// What the packet says.
    pub open spec fn view(&self) -> Packet {
        Packet {
            command: self.header.command,
            arg0: self.header.arg0,
            arg1: self.header.arg1,
            length: self.header.data_length,
            sum: self.header.data_crc32,
            magic: self.header.magic,
            payload: self.payload@,
        }
    }

    /// Whether the header describes the payload.
    pub open spec fn intact(&self) -> bool {
        &&& self.header.magic == command_code(self.header.command) ^ 0xffff_ffffu32
        &&& self.header.data_crc32 == byte_sum(self.payload@) % 0x1_0000_0000
    }

    /// Builds a packet. A payload whose length does not fit the header is refused.
    pub fn try_new(command: MessageCommand, arg0: u32, arg1: u32, payload: &[u8]) -> (message:
        AdbResult<ADBTransportMessage>)
        ensures
            if payload@.len() <= u32::MAX {
                &&& message is Ok
                &&& message->Ok_0@ == packet(command, arg0, arg1, payload@)
            } else {
                message is Err && message->Err_0@ == RustADBError::<Seq<char>>::NumberOverflow
            },
    {
        if payload.len() as u64 > u32::MAX as u64 {
            return Err(RustADBError::NumberOverflow);
        }
        let mut copy: Vec<u8> = Vec::new();
        push_bytes(&mut copy, payload);
        assert(copy@ =~= payload@);
        Ok(
            ADBTransportMessage {
                header: ADBTransportMessageHeader {
                    command,
                    arg0,
                    arg1,
                    data_length: payload.len() as u32,
                    data_crc32: ADBTransportMessageHeader::compute_crc32(payload),
                    magic: command.code() ^ 0xffff_ffff,
                },
                payload: copy,
            },
        )
    }

    /// Builds a packet without a payload.
    pub fn bare(command: MessageCommand, arg0: u32, arg1: u32) -> (message: ADBTransportMessage)
        ensures
            message@ == bare(command, arg0, arg1),
    {
        let payload: Vec<u8> = Vec::new();
        ADBTransportMessage {
            header: ADBTransportMessageHeader {
                command,
                arg0,
                arg1,
                data_length: 0,
                data_crc32: ADBTransportMessageHeader::compute_crc32(&payload),
                magic: command.code() ^ 0xffff_ffff,
            },
            payload,
        }
    }

    /// Joins a header and the payload that follows it. A payload that the header
    /// does not describe is refused, with the sum that it has and the sum that
    /// was announced.
    pub fn from_header_and_payload(header: ADBTransportMessageHeader, payload: Vec<u8>) -> (message:
        AdbResult<ADBTransportMessage>)
        ensures
            ({
                let joined = ADBTransportMessage { header, payload };
                if joined.intact() {
                    message is Ok && message->Ok_0 == joined
                } else {
                    message is Err && message->Err_0@ == RustADBError::<
                        Seq<char>,
                    >::InvalidIntegrity(
                        (byte_sum(payload@) % 0x1_0000_0000) as u32,
                        header.data_crc32,
                    )
                }
            }),
    {
        let sum: u32 = ADBTransportMessageHeader::compute_crc32(&payload);
        if header.magic == header.command.code() ^ 0xffff_ffff && header.data_crc32 == sum {
            Ok(ADBTransportMessage { header, payload })
        } else {
            Err(RustADBError::InvalidIntegrity(sum, header.data_crc32))
        }
    }

    /// The header.
    pub fn header(&self) -> (header: &ADBTransportMessageHeader)
        ensures
            *header == self.header,
    {
        &self.header
    }

    /// The payload.
    pub fn payload(&self) -> (payload: &[u8])
        ensures
            payload@ == self.payload@,
    {
        self.payload.as_slice()
    }
}

/// A command is the four letters of its name, as they stand on the wire.
pub proof fn commands_are_spelled_on_the_wire(command: MessageCommand)
    ensures
        le32(command_code(command)) == encode_utf8(command_name(command)),
        le32(command_code(command)) == match command {
            MessageCommand::Cnxn => seq![0x43u8, 0x4e, 0x58, 0x4e],
            MessageCommand::Clse => seq![0x43u8, 0x4c, 0x53, 0x45],
            MessageCommand::Auth => seq![0x41u8, 0x55, 0x54, 0x48],
            MessageCommand::Open => seq![0x4fu8, 0x50, 0x45, 0x4e],
            MessageCommand::Write => seq![0x57u8, 0x52, 0x54, 0x45],
            MessageCommand::Okay => seq![0x4fu8, 0x4b, 0x41, 0x59],
            MessageCommand::Stls => seq![0x53u8, 0x54, 0x4c, 0x53],
        },
{
    reveal_strlit("CNXN");
    reveal_strlit("CLSE");
    reveal_strlit("AUTH");
    reveal_strlit("OPEN");
    reveal_strlit("WRTE");
    reveal_strlit("OKAY");
    reveal_strlit("STLS");
    is_ascii_chars_encode_utf8(command_name(command));
    assert(le32(command_code(command)) =~= encode_utf8(command_name(command)));
}

/// The fields of a header stand one after the other, four bytes each.
pub proof fn fields_of_a_header_have_their_places(header: ADBTransportMessageHeader)
    ensures
        ({
            let bytes = header_bytes(header);
            &&& bytes.len() == 24
            &&& bytes.subrange(0, 4) == encode_utf8(command_name(header.command))
            &&& bytes.subrange(4, 8) == le32(header.arg0)
            &&& bytes.subrange(8, 12) == le32(header.arg1)
            &&& bytes.subrange(12, 16) == le32(header.data_length)
            &&& bytes.subrange(16, 20) == le32(header.data_crc32)
            &&& bytes.subrange(20, 24) == le32(header.magic)
        }),
{
    commands_are_spelled_on_the_wire(header.command);
    let bytes = header_bytes(header);
    assert(bytes.subrange(0, 4) =~= le32(command_code(header.command)));
    assert(bytes.subrange(4, 8) =~= le32(header.arg0));
    assert(bytes.subrange(8, 12) =~= le32(header.arg1));
    assert(bytes.subrange(12, 16) =~= le32(header.data_length));
    assert(bytes.subrange(16, 20) =~= le32(header.data_crc32));
    assert(bytes.subrange(20, 24) =~= le32(header.magic));
}

/// The sum of a payload is that of its parts, and that of one byte is the byte.
pub proof fn sums_add_up(left: Seq<u8>, right: Seq<u8>, byte: u8)
    ensures
        byte_sum(left + right) == byte_sum(left) + byte_sum(right),
        byte_sum(seq![byte]) == byte,
        byte_sum(seq![]) == 0,
    decreases right.len(),
{
    assert(seq![byte].drop_last() =~= seq![]);
    assert(byte_sum(seq![byte]) == byte_sum(seq![]) + byte as nat);
    if right.len() > 0 {
        sums_add_up(left, right.drop_last(), byte);
        assert((left + right).drop_last() =~= left + right.drop_last());
    } else {
        assert(left + right =~= left);
    }
}

/// A packet carries what it was made of: its arguments in their order, its payload, the
/// length of that, the sum of its bytes, and a magic number that has a one where the
/// code of the command has a zero.
pub proof fn packets_carry_what_they_are_made_of(
    command: MessageCommand,
    arg0: u32,
    arg1: u32,
    payload: Seq<u8>,
)
    requires
        payload.len() <= u32::MAX,
    ensures
        ({
            let made = packet(command, arg0, arg1, payload);
            &&& made.command == command
            &&& made.arg0 == arg0
            &&& made.arg1 == arg1
            &&& made.payload == payload
            &&& made.length == payload.len()
            &&& made.sum == byte_sum(payload) % 4294967296
            &&& made.magic == 0xffff_ffff - command_code(command)
            &&& bare(command, arg0, arg1) == packet(command, arg0, arg1, seq![])
        }),
{
    let code = command_code(command);
    assert(code ^ 0xffff_ffffu32 == 0xffff_ffffu32 - code) by (bit_vector);
}

/// A message that was built is intact, and one whose payload differs in one byte is not.
pub proof fn damage_is_noticed(
    message: ADBTransportMessage,
    damaged: ADBTransportMessage,
    i: int,
    byte: u8,
)
    requires
        0 <= i < message.payload@.len(),
        message.payload@[i] != byte,
        damaged.header == message.header,
        damaged.payload@ == message.payload@.update(i, byte),
        message@.whole(),
    ensures
        message.intact(),
        !damaged.intact(),
{
    let payload = message.payload@;
    let before = payload.take(i);
    let after = payload.skip(i + 1);
    assert(payload =~= before + seq![payload[i]] + after);
    assert(payload.update(i, byte) =~= before + seq![byte] + after);
    sums_add_up(before + seq![payload[i]], after, payload[i]);
    sums_add_up(before, seq![payload[i]], payload[i]);
    sums_add_up(before + seq![byte], after, byte);
    sums_add_up(before, seq![byte], byte);
}

/// Each command has a name of four letters of its own.
pub proof fn commands_have_names(command: MessageCommand)
    ensures
        command_name(command) == match command {
            MessageCommand::Cnxn => "CNXN"@,
            MessageCommand::Clse => "CLSE"@,
            MessageCommand::Auth => "AUTH"@,
            MessageCommand::Open => "OPEN"@,
            MessageCommand::Write => "WRTE"@,
            MessageCommand::Okay => "OKAY"@,
            MessageCommand::Stls => "STLS"@,
        },
        command_name(command).len() == 4,
{
    reveal_strlit("CNXN");
    reveal_strlit("CLSE");
    reveal_strlit("AUTH");
    reveal_strlit("OPEN");
    reveal_strlit("WRTE");
    reveal_strlit("OKAY");
    reveal_strlit("STLS");
}

} // verus!
