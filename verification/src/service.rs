//! The services of a device, each as a machine that packets drive.
//!
//! A service opens a stream, and then answers each packet of the stream with
//! the packets to send, the bytes to put out, and, at its end, its outcome.

use crate::bytes::{copy_bytes, le32, le32_value, push_bytes, push_le32, read_le32};
use crate::error::{AdbResult, RustADBError};
use crate::message::{bare, packet, ADBTransportMessage, MessageCommand, Packet};
use crate::text::same_bytes;
use vstd::prelude::*;
use vstd::utf8::*;

verus! {

/// What is to be done for a service.
#[derive(Debug)]
pub enum Action<M, B> {
    /// Send a packet; a failure ends the service.
    Send(M),
    /// Send a packet; a failure does not matter.
    TrySend(M),
    /// Put bytes out; a failure ends the service.
    Output(B),
}

/// The actions that a packet asks for, in order, and the outcome where the
/// service has ended.
#[derive(Debug)]
pub struct Step {
    /// The actions.
    pub actions: Vec<Action<ADBTransportMessage, Vec<u8>>>,
    /// The outcome.
    pub outcome: Option<AdbResult<()>>,
}

/// The outcome of a service, with the text of its error.
pub type Outcome = Option<Result<(), RustADBError<Seq<char>>>>;

/// What a step says.
#[verifier::ext_equal]
pub ghost struct Answer {
    /// The actions.
    pub actions: Seq<Action<Packet, Seq<u8>>>,
    /// The outcome.
    pub outcome: Outcome,
}

/// What an action says.
pub open spec fn action_view(action: Action<ADBTransportMessage, Vec<u8>>) -> Action<
    Packet,
    Seq<u8>,
> {
    match action {
        Action::Send(message) => Action::Send(message@),
        Action::TrySend(message) => Action::TrySend(message@),
        Action::Output(bytes) => Action::Output(bytes@),
    }
}

/// What an outcome says.
pub open spec fn outcome_view(outcome: Option<AdbResult<()>>) -> Outcome {
    match outcome {
        None => None,
        Some(Ok(())) => Some(Ok(())),
        Some(Err(error)) => Some(Err(error@)),
    }
}

/// An outcome that is a request failure.
pub open spec fn fails(message: Seq<char>) -> Outcome {
    Some(Err(RustADBError::ADBRequestFailed(message)))
}

impl Step {
    /// What the step says.
    pub open spec fn view(&self) -> Answer {
        Answer {
            actions: self.actions@.map_values(
                |action: Action<ADBTransportMessage, Vec<u8>>| action_view(action),
            ),
            outcome: outcome_view(self.outcome),
        }
    }

    /// A step that asks for nothing.
    pub(crate) fn idle() -> (step: Step)
        ensures
            step@ == (Answer { actions: seq![], outcome: None }),
    {
        let step = Step { actions: Vec::new(), outcome: None };
        assert(step@.actions =~= seq![]);
        step
    }

    /// Adds an action.
    pub(crate) fn with(self, action: Action<ADBTransportMessage, Vec<u8>>) -> (step: Step)
        ensures
            step@ == (Answer { actions: self@.actions.push(action_view(action)), ..self@ }),
    {
        let mut actions = self.actions;
        actions.push(action);
        let step = Step { actions, outcome: self.outcome };
        assert(step@.actions =~= self@.actions.push(action_view(action)));
        step
    }

    /// Ends the service.
    pub(crate) fn ending(self, outcome: AdbResult<()>) -> (step: Step)
        ensures
            step@ == (Answer { outcome: outcome_view(Some(outcome)), ..self@ }),
    {
        Step { actions: self.actions, outcome: Some(outcome) }
    }
}

/// The bytes of a destination: its text and a zero.
pub open spec fn destination_bytes(destination: Seq<char>) -> Seq<u8> {
    let bytes = encode_utf8(destination);
    if bytes.len() > 0 && bytes.last() == 0 {
        bytes
    } else {
        bytes.push(0)
    }
}

/// Builds the packet that opens a stream to a destination.
pub fn open_packet(local_id: u32, destination: &str) -> (message: AdbResult<ADBTransportMessage>)
    ensures
        if destination_bytes(destination@).len() <= u32::MAX {
            &&& message is Ok
            &&& message->Ok_0@ == packet(
                MessageCommand::Open,
                local_id,
                0,
                destination_bytes(destination@),
            )
        } else {
            message is Err && message->Err_0@ == RustADBError::<Seq<char>>::NumberOverflow
        },
{
    let mut bytes: Vec<u8> = Vec::new();
    push_bytes(&mut bytes, destination.as_bytes());
    assert(bytes@ =~= encode_utf8(destination@));
    if bytes.len() == 0 || bytes[bytes.len() - 1] != 0 {
        bytes.push(0);
    }
    ADBTransportMessage::try_new(MessageCommand::Open, local_id, 0, &bytes)
}

/// The two ends of a stream.
#[derive(Clone, Copy, Debug, PartialEq, Eq, Structural)]
pub struct DispatchedService {
    /// The identifier of the host.
    pub local_id: u32,
    /// The identifier of the device.
    pub remote_id: u32,
}

impl DispatchedService {
    /// The packet that acknowledges a write.
    pub fn acknowledge(&self) -> (message: ADBTransportMessage)
        ensures
            message@ == bare(MessageCommand::Okay, self.local_id, self.remote_id),
    {
        ADBTransportMessage::bare(MessageCommand::Okay, self.local_id, self.remote_id)
    }

    /// The packet that closes the stream.
    pub fn close_ack(&self) -> (message: ADBTransportMessage)
        ensures
            message@ == bare(MessageCommand::Clse, self.local_id, self.remote_id),
    {
        ADBTransportMessage::bare(MessageCommand::Clse, self.local_id, self.remote_id)
    }

    /// The packet that writes to the stream.
    pub fn write(&self, payload: &[u8]) -> (message: AdbResult<ADBTransportMessage>)
        ensures
            if payload@.len() <= u32::MAX {
                &&& message is Ok
                &&& message->Ok_0@ == packet(
                    MessageCommand::Write,
                    self.local_id,
                    self.remote_id,
                    payload@,
                )
            } else {
                message is Err && message->Err_0@ == RustADBError::<Seq<char>>::NumberOverflow
            },
    {
        ADBTransportMessage::try_new(MessageCommand::Write, self.local_id, self.remote_id, payload)
    }
}

/// The packet that acknowledges a write on a stream.
pub open spec fn okay(service: DispatchedService) -> Packet {
    bare(MessageCommand::Okay, service.local_id, service.remote_id)
}

/// The packet that closes a stream.
pub open spec fn close(service: DispatchedService) -> Packet {
    bare(MessageCommand::Clse, service.local_id, service.remote_id)
}

/// The packet that writes to a stream.
pub open spec fn carries(service: DispatchedService, payload: Seq<u8>) -> Packet {
    packet(MessageCommand::Write, service.local_id, service.remote_id, payload)
}

/// The largest packet of a shell.
pub const MAX_SHELL_PACKET: usize = 1048576;

/// The bytes of diagnostics after which no more are kept.
pub const MAX_DIAGNOSTICS: usize = 65536;

/// The largest packet of a download.
pub const MAX_SYNC_PACKET: usize = 65536;

/// How the stream of a shell ends.
#[derive(Debug)]
pub enum ShellEnd<B> {
    /// The command exited, with this data.
    Exit(B),
    /// A packet is too large.
    Oversized,
    /// A packet is of no known kind.
    Invalid,
}

/// What the stream of a shell has given so far.
#[verifier::ext_equal]
pub ghost struct ShellRun {
    /// The output of the command.
    pub output: Seq<u8>,
    /// Its diagnostics.
    pub errors: Seq<u8>,
    /// The bytes of a packet that is not complete.
    pub rest: Seq<u8>,
    /// The end of the stream.
    pub end: Option<ShellEnd<Seq<u8>>>,
}

/// What the bytes of a shell stream give: packets of a kind, a length and data.
pub open spec fn shell_run(stream: Seq<u8>, output: Seq<u8>, errors: Seq<u8>) -> ShellRun
    decreases stream.len(),
{
    let waiting = ShellRun { output, errors, rest: stream, end: None };
    if stream.len() < 5 {
        waiting
    } else {
        let length = le32_value(stream.skip(1));
        let data = stream.subrange(5, 5 + length);
        let rest = stream.skip(5 + length);
        if length > MAX_SHELL_PACKET {
            ShellRun { end: Some(ShellEnd::Oversized), ..waiting }
        } else if stream.len() < 5 + length {
            waiting
        } else if stream[0] == 1 {
            shell_run(rest, output + data, errors)
        } else if stream[0] == 2 {
            shell_run(
                rest,
                output,
                if errors.len() < MAX_DIAGNOSTICS {
                    errors + data
                } else {
                    errors
                },
            )
        } else if stream[0] == 3 {
            ShellRun { rest, end: Some(ShellEnd::Exit(data)), ..waiting }
        } else {
            ShellRun { rest, end: Some(ShellEnd::Invalid), ..waiting }
        }
    }
}

/// How a shell stream is cut into transport packets does not matter: what the
/// first part leaves over, with the second part behind it, gives what both
/// together give.
pub proof fn shell_run_ignores_packet_boundaries(
    first: Seq<u8>,
    second: Seq<u8>,
    output: Seq<u8>,
    errors: Seq<u8>,
)
    requires
        shell_run(first, output, errors).end is None,
    ensures
        ({
            let half = shell_run(first, output, errors);
            shell_run(first + second, output, errors) == shell_run(
                half.rest + second,
                half.output,
                half.errors,
            )
        }),
    decreases first.len(),
{
    let whole = first + second;
    if first.len() >= 5 {
        let length = le32_value(first.skip(1));
        assert(le32_value(whole.skip(1)) == length);
        if first.len() >= 5 + length {
            let rest = first.skip(5 + length);
            let data = first.subrange(5, 5 + length);
            assert(whole.subrange(5, 5 + length) =~= data);
            assert(whole.skip(5 + length) =~= rest + second);
            if first[0] == 1 {
                shell_run_ignores_packet_boundaries(rest, second, output + data, errors);
            } else if first[0] == 2 {
                let kept = if errors.len() < MAX_DIAGNOSTICS {
                    errors + data
                } else {
                    errors
                };
                shell_run_ignores_packet_boundaries(rest, second, output, kept);
            }
        }
    }
}

/// What comes behind the end of a shell stream does not matter.
pub proof fn shell_run_stops_at_its_end(
    first: Seq<u8>,
    second: Seq<u8>,
    output: Seq<u8>,
    errors: Seq<u8>,
)
    requires
        shell_run(first, output, errors).end is Some,
    ensures
        ({
            let half = shell_run(first, output, errors);
            let full = shell_run(first + second, output, errors);
            full.output == half.output && full.errors == half.errors && full.end == half.end
        }),
    decreases first.len(),
{
    let whole = first + second;
    let length = le32_value(first.skip(1));
    assert(le32_value(whole.skip(1)) == length);
    if length <= MAX_SHELL_PACKET {
        let rest = first.skip(5 + length);
        let data = first.subrange(5, 5 + length);
        assert(whole.subrange(5, 5 + length) =~= data);
        assert(whole.skip(5 + length) =~= rest + second);
        if first[0] == 1 {
            shell_run_stops_at_its_end(rest, second, output + data, errors);
        } else if first[0] == 2 {
            let kept = if errors.len() < MAX_DIAGNOSTICS {
                errors + data
            } else {
                errors
            };
            shell_run_stops_at_its_end(rest, second, output, kept);
        }
    }
}

/// The output of a shell stream goes behind what came before.
pub proof fn lemma_shell_output(stream: Seq<u8>, output: Seq<u8>, errors: Seq<u8>)
    ensures
        ({
            let run = shell_run(stream, output, errors);
            let fresh = shell_run(stream, seq![], errors);
            run == (ShellRun { output: output + fresh.output, ..fresh })
        }),
    decreases stream.len(),
{
    let fresh = shell_run(stream, seq![], errors);
    assert(output + Seq::<u8>::empty() =~= output);
    if stream.len() >= 5 {
        let length = le32_value(stream.skip(1));
        if length <= MAX_SHELL_PACKET && stream.len() >= 5 + length {
            let data = stream.subrange(5, 5 + length);
            let rest = stream.skip(5 + length);
            if stream[0] == 1 {
                lemma_shell_output(rest, output + data, errors);
                lemma_shell_output(rest, seq![] + data, errors);
                let last = shell_run(rest, seq![], errors);
                assert(output + data + last.output =~= output + (seq![] + data + last.output));
            } else if stream[0] == 2 {
                let kept = if errors.len() < MAX_DIAGNOSTICS {
                    errors + data
                } else {
                    errors
                };
                lemma_shell_output(rest, output, kept);
            }
        }
    }
}

/// What a shell stream has given, as values.
pub(crate) struct ShellProgress {
    pub(crate) output: Vec<u8>,
    pub(crate) errors: Vec<u8>,
    pub(crate) rest: Vec<u8>,
    pub(crate) end: Option<ShellEnd<Vec<u8>>>,
}

impl ShellProgress {
    pub(crate) open spec fn view(&self) -> ShellRun {
        ShellRun {
            output: self.output@,
            errors: self.errors@,
            rest: self.rest@,
            end: match self.end {
                None => None,
                Some(ShellEnd::Exit(data)) => Some(ShellEnd::Exit(data@)),
                Some(ShellEnd::Oversized) => Some(ShellEnd::Oversized),
                Some(ShellEnd::Invalid) => Some(ShellEnd::Invalid),
            },
        }
    }
}

/// Copies the bytes from a place on.
fn rest_of(bytes: &[u8], at: usize) -> (rest: Vec<u8>)
    requires
        at <= bytes@.len(),
    ensures
        rest@ == bytes@.skip(at as int),
{
    let rest: Vec<u8> = copy_bytes(bytes, at, bytes.len());
    assert(rest@ =~= bytes@.skip(at as int));
    rest
}

/// Reads the packets of a shell stream.
pub(crate) fn read_shell(stream: &[u8], diagnostics: &[u8]) -> (progress: ShellProgress)
    ensures
        progress@ == shell_run(stream@, seq![], diagnostics@),
{
    let mut errors: Vec<u8> = Vec::new();
    push_bytes(&mut errors, diagnostics);
    assert(errors@ =~= diagnostics@);
    let mut output: Vec<u8> = Vec::new();
    let mut at: usize = 0;
    assert(stream@.skip(0) =~= stream@);
    assert(output@ =~= seq![]);
    while stream.len() - at >= 5
        invariant
            at <= stream@.len(),
            shell_run(stream@, seq![], diagnostics@) == shell_run(
                stream@.skip(at as int),
                output@,
                errors@,
            ),
        decreases stream@.len() - at,
    {
        let ghost here = stream@.skip(at as int);
        let kind: u8 = stream[at];
        let length: u32 = read_le32(stream, at + 1);
        assert(stream@.skip(at + 1) =~= here.skip(1));
        if length > MAX_SHELL_PACKET as u32 {
            return ShellProgress {
                output,
                errors,
                rest: rest_of(stream, at),
                end: Some(ShellEnd::Oversized),
            };
        }
        let length: usize = length as usize;
        if stream.len() - at - 5 < length {
            return ShellProgress {
                output,
                errors,
                rest: rest_of(stream, at),
                end: None,
            };
        }
        let data: Vec<u8> = copy_bytes(stream, at + 5, at + 5 + length);
        assert(data@ =~= here.subrange(5, 5 + length));
        at = at + 5 + length;
        assert(stream@.skip(at as int) =~= here.skip(5 + length));
        if kind == 1 {
            push_bytes(&mut output, &data);
        } else if kind == 2 {
            if errors.len() < MAX_DIAGNOSTICS {
                push_bytes(&mut errors, &data);
            }
        } else if kind == 3 {
            return ShellProgress {
                output,
                errors,
                rest: rest_of(stream, at),
                end: Some(ShellEnd::Exit(data)),
            };
        } else {
            return ShellProgress {
                output,
                errors,
                rest: rest_of(stream, at),
                end: Some(ShellEnd::Invalid),
            };
        }
    }
    ShellProgress { output, errors, rest: rest_of(stream, at), end: None }
}

/// The first word of a download request.
pub const RECV: [u8; 4] = [0x52, 0x45, 0x43, 0x56];

/// The first word of an upload request.
pub const SEND: [u8; 4] = [0x53, 0x45, 0x4e, 0x44];

/// The first word of a packet with data.
pub const DATA: [u8; 4] = [0x44, 0x41, 0x54, 0x41];

/// The first word of the last packet.
pub const DONE: [u8; 4] = [0x44, 0x4f, 0x4e, 0x45];

/// The first word of a refusal.
pub const FAIL: [u8; 4] = [0x46, 0x41, 0x49, 0x4c];

/// The first word of an answer that grants a request.
pub const OKAY: [u8; 4] = [0x4f, 0x4b, 0x41, 0x59];

/// The size of the pieces that an upload is cut into.
pub const CHUNK_SIZE: usize = 65535;

/// A request or packet of the file service: a word, a length and its data.
pub open spec fn sync_packet(word: Seq<u8>, data: Seq<u8>) -> Seq<u8> {
    word + le32(data.len() as u32) + data
}

/// Builds a request or packet of the file service.
pub(crate) fn build_sync(word: &[u8; 4], data: &[u8]) -> (bytes: AdbResult<Vec<u8>>)
    ensures
        if data@.len() <= u32::MAX {
            bytes is Ok && bytes->Ok_0@ == sync_packet(word@, data@)
        } else {
            bytes is Err && bytes->Err_0@ == RustADBError::<Seq<char>>::NumberOverflow
        },
{
    if data.len() as u64 > u32::MAX as u64 {
        return Err(RustADBError::NumberOverflow);
    }
    let mut bytes: Vec<u8> = Vec::new();
    push_bytes(&mut bytes, word);
    push_le32(&mut bytes, data.len() as u32);
    push_bytes(&mut bytes, data);
    assert(bytes@ =~= sync_packet(word@, data@));
    Ok(bytes)
}

/// How a download ends.
#[derive(Debug)]
pub enum SyncEnd<B> {
    /// The file is complete.
    Done,
    /// The device refused, with this reason.
    Fail(B),
    /// A packet is of no known kind, or too large.
    Invalid,
}

/// What the stream of a download has given so far.
#[verifier::ext_equal]
pub ghost struct SyncRun {
    /// The contents of the file.
    pub output: Seq<u8>,
    /// The bytes of a packet that is not complete.
    pub rest: Seq<u8>,
    /// The end of the download.
    pub end: Option<SyncEnd<Seq<u8>>>,
}

/// What the bytes of a download give: packets of a word, a length and data.
pub open spec fn sync_run(stream: Seq<u8>, output: Seq<u8>) -> SyncRun
    decreases stream.len(),
{
    let waiting = SyncRun { output, rest: stream, end: None };
    if stream.len() < 8 {
        waiting
    } else {
        let word = stream.take(4);
        let length = le32_value(stream.skip(4));
        let data = stream.subrange(8, 8 + length);
        if word == DONE@ {
            SyncRun { rest: stream.skip(8), end: Some(SyncEnd::Done), ..waiting }
        } else if (word == DATA@ || word == FAIL@) && length <= MAX_SYNC_PACKET {
            if stream.len() < 8 + length {
                waiting
            } else if word == DATA@ {
                sync_run(stream.skip(8 + length), output + data)
            } else {
                SyncRun {
                    rest: stream.skip(8 + length),
                    end: Some(SyncEnd::Fail(data)),
                    ..waiting
                }
            }
        } else {
            SyncRun { rest: stream.skip(8), end: Some(SyncEnd::Invalid), ..waiting }
        }
    }
}

/// How a download is cut into transport packets does not matter.
pub proof fn sync_run_ignores_packet_boundaries(first: Seq<u8>, second: Seq<u8>, output: Seq<u8>)
    requires
        sync_run(first, output).end is None,
    ensures
        ({
            let half = sync_run(first, output);
            sync_run(first + second, output) == sync_run(half.rest + second, half.output)
        }),
    decreases first.len(),
{
    let whole = first + second;
    if first.len() >= 8 {
        let length = le32_value(first.skip(4));
        assert(whole.take(4) =~= first.take(4));
        assert(le32_value(whole.skip(4)) == length);
        if first.len() >= 8 + length {
            let data = first.subrange(8, 8 + length);
            assert(whole.subrange(8, 8 + length) =~= data);
            assert(whole.skip(8 + length) =~= first.skip(8 + length) + second);
            sync_run_ignores_packet_boundaries(first.skip(8 + length), second, output + data);
        }
    }
}

/// What comes behind the end of a download does not matter.
pub proof fn sync_run_stops_at_its_end(first: Seq<u8>, second: Seq<u8>, output: Seq<u8>)
    requires
        sync_run(first, output).end is Some,
    ensures
        ({
            let half = sync_run(first, output);
            let full = sync_run(first + second, output);
            full.output == half.output && full.end == half.end
        }),
    decreases first.len(),
{
    let whole = first + second;
    let length = le32_value(first.skip(4));
    assert(whole.take(4) =~= first.take(4));
    assert(le32_value(whole.skip(4)) == length);
    if first.len() >= 8 + length {
        let data = first.subrange(8, 8 + length);
        assert(whole.subrange(8, 8 + length) =~= data);
        assert(whole.skip(8 + length) =~= first.skip(8 + length) + second);
        if first.take(4) == DATA@ && length <= MAX_SYNC_PACKET && DATA@ != DONE@ {
            sync_run_stops_at_its_end(first.skip(8 + length), second, output + data);
        }
    }
}

/// The output of a download goes behind what came before.
pub proof fn lemma_sync_output(stream: Seq<u8>, output: Seq<u8>)
    ensures
        ({
            let run = sync_run(stream, output);
            let fresh = sync_run(stream, seq![]);
            run == (SyncRun { output: output + fresh.output, ..fresh })
        }),
    decreases stream.len(),
{
    assert(output + Seq::<u8>::empty() =~= output);
    if stream.len() >= 8 {
        let length = le32_value(stream.skip(4));
        if stream.len() >= 8 + length && stream.take(4) == DATA@ && length <= MAX_SYNC_PACKET
            && DATA@ != DONE@ {
            let data = stream.subrange(8, 8 + length);
            let rest = stream.skip(8 + length);
            lemma_sync_output(rest, output + data);
            lemma_sync_output(rest, seq![] + data);
            let last = sync_run(rest, seq![]);
            assert(output + data + last.output =~= output + (seq![] + data + last.output));
        }
    }
}

/// What a download gives back is what was cut into packets, followed by the
/// last packet.
pub proof fn downloads_join_their_packets(pieces: Seq<Seq<u8>>, output: Seq<u8>)
    requires
        forall|i: int| 0 <= i < pieces.len() ==> (#[trigger] pieces[i]).len() <= MAX_SYNC_PACKET,
    ensures
        ({
            let run = sync_run(sync_stream(pieces), output);
            run.output == output + pieces.flatten() && run.end == Some(SyncEnd::<Seq<u8>>::Done)
        }),
    decreases pieces.len(),
{
    if pieces.len() == 0 {
        let stream = sync_packet(DONE@, seq![]);
        assert(stream.take(4) =~= DONE@);
        assert(pieces.flatten() =~= seq![]);
        assert(output + pieces.flatten() =~= output);
    } else {
        let head = pieces[0];
        let tail = pieces.drop_first();
        let stream = sync_stream(pieces);
        crate::bytes::lemma_le32(head.len() as u32);
        assert(stream.take(4) =~= DATA@);
        assert(DATA@ != DONE@) by {
            assert(DATA@[1] != DONE@[1]);
        }
        assert(le32_value(stream.skip(4)) == le32_value(le32(head.len() as u32)));
        assert(stream.subrange(8, (8 + head.len()) as int) =~= head);
        assert(stream.skip((8 + head.len()) as int) =~= sync_stream(tail));
        downloads_join_their_packets(tail, output + head);
        assert(pieces.flatten() =~= head + tail.flatten());
        assert(output + head + tail.flatten() =~= output + (head + tail.flatten()));
    }
}

/// The stream of a download: each piece as a packet, and the last packet.
pub open spec fn sync_stream(pieces: Seq<Seq<u8>>) -> Seq<u8>
    decreases pieces.len(),
{
    if pieces.len() == 0 {
        sync_packet(DONE@, seq![])
    } else {
        sync_packet(DATA@, pieces[0]) + sync_stream(pieces.drop_first())
    }
}

/// What a download has given, as values.
pub(crate) struct SyncProgress {
    pub(crate) output: Vec<u8>,
    pub(crate) rest: Vec<u8>,
    pub(crate) end: Option<SyncEnd<Vec<u8>>>,
}

impl SyncProgress {
    pub(crate) open spec fn view(&self) -> SyncRun {
        SyncRun {
            output: self.output@,
            rest: self.rest@,
            end: match self.end {
                None => None,
                Some(SyncEnd::Done) => Some(SyncEnd::Done),
                Some(SyncEnd::Fail(data)) => Some(SyncEnd::Fail(data@)),
                Some(SyncEnd::Invalid) => Some(SyncEnd::Invalid),
            },
        }
    }
}

/// Reads the packets of a download.
pub(crate) fn read_sync(stream: &[u8]) -> (progress: SyncProgress)
    ensures
        progress@ == sync_run(stream@, seq![]),
{
    let mut output: Vec<u8> = Vec::new();
    let mut at: usize = 0;
    assert(stream@.skip(0) =~= stream@);
    assert(output@ =~= seq![]);
    while stream.len() - at >= 8
        invariant
            at <= stream@.len(),
            sync_run(stream@, seq![]) == sync_run(stream@.skip(at as int), output@),
        decreases stream@.len() - at,
    {
        let ghost here = stream@.skip(at as int);
        let word: Vec<u8> = copy_bytes(stream, at, at + 4);
        let length: u32 = read_le32(stream, at + 4);
        assert(word@ =~= here.take(4));
        assert(stream@.skip(at + 4) =~= here.skip(4));
        assert(stream@.skip(at + 8) =~= here.skip(8));
        if same_bytes(&word, &DONE) {
            return SyncProgress {
                output,
                rest: rest_of(stream, at + 8),
                end: Some(SyncEnd::Done),
            };
        }
        let is_data = same_bytes(&word, &DATA);
        let is_fail = same_bytes(&word, &FAIL);
        if !(is_data || is_fail) || length > MAX_SYNC_PACKET as u32 {
            return SyncProgress {
                output,
                rest: rest_of(stream, at + 8),
                end: Some(SyncEnd::Invalid),
            };
        }
        let length: usize = length as usize;
        if stream.len() - at - 8 < length {
            return SyncProgress { output, rest: rest_of(stream, at), end: None };
        }
        let data: Vec<u8> = copy_bytes(stream, at + 8, at + 8 + length);
        assert(data@ =~= here.subrange(8, 8 + length));
        at = at + 8 + length;
        assert(stream@.skip(at as int) =~= here.skip(8 + length));
        if is_data {
            push_bytes(&mut output, &data);
        } else {
            return SyncProgress {
                output,
                rest: rest_of(stream, at),
                end: Some(SyncEnd::Fail(data)),
            };
        }
    }
    SyncProgress { output, rest: rest_of(stream, at), end: None }
}

/// The packets of a stream carry the identifier of this end first and that of the other
/// end second. An acknowledgement and a closing carry nothing else.
pub proof fn packets_name_both_ends(service: DispatchedService, payload: Seq<u8>)
    requires
        payload.len() <= u32::MAX,
    ensures
        okay(service).command == MessageCommand::Okay,
        close(service).command == MessageCommand::Clse,
        carries(service, payload).command == MessageCommand::Write,
        carries(service, payload).payload == payload,
        forall|sent: Packet|
            sent == okay(service) || sent == close(service) || sent == carries(service, payload)
                ==> sent.arg0 == service.local_id && sent.arg1 == service.remote_id,
        okay(service).payload.len() == 0,
        close(service).payload.len() == 0,
{
}

/// A destination ends in a zero, and has one added only where it has none.
pub proof fn destinations_end_in_a_zero(destination: Seq<char>)
    ensures
        ({
            let bytes = encode_utf8(destination);
            let sent = destination_bytes(destination);
            &&& sent.len() > 0
            &&& sent.last() == 0
            &&& sent == bytes || sent == bytes + seq![0u8]
            &&& bytes.len() > 0 && bytes.last() == 0 ==> sent == bytes
            &&& bytes.len() == 0 || bytes.last() != 0 ==> sent.drop_last() == bytes
        }),
{
    let bytes = encode_utf8(destination);
    assert(bytes.push(0) =~= bytes + seq![0u8]);
    assert(bytes.push(0).drop_last() =~= bytes);
}

/// A packet of a shell stream: its kind, the length of its data, and the data.
pub open spec fn shell_piece(kind: u8, data: Seq<u8>) -> Seq<u8> {
    seq![kind] + le32(data.len() as u32) + data
}

/// What a command writes, in order: to its output or, where so marked, to its
/// diagnostics.
pub type ShellWrites = Seq<(bool, Seq<u8>)>;

/// The shell stream of what a command writes: kind one is output, kind two diagnostics.
pub open spec fn shell_writes(writes: ShellWrites) -> Seq<u8>
    decreases writes.len(),
{
    if writes.len() == 0 {
        seq![]
    } else {
        shell_piece(
            if writes[0].0 {
                2
            } else {
                1
            },
            writes[0].1,
        ) + shell_writes(writes.drop_first())
    }
}

/// What a command writes to its output, or to its diagnostics.
pub open spec fn written(writes: ShellWrites, diagnostics: bool) -> Seq<u8>
    decreases writes.len(),
{
    if writes.len() == 0 {
        seq![]
    } else if writes[0].0 == diagnostics {
        writes[0].1 + written(writes.drop_first(), diagnostics)
    } else {
        written(writes.drop_first(), diagnostics)
    }
}

/// How a packet at the front of a stream is read.
proof fn lemma_shell_piece(kind: u8, data: Seq<u8>, tail: Seq<u8>)
    requires
        data.len() <= MAX_SHELL_PACKET,
    ensures
        ({
            let stream = shell_piece(kind, data) + tail;
            &&& stream.len() == 5 + data.len() + tail.len()
            &&& stream[0] == kind
            &&& le32_value(stream.skip(1)) == data.len()
            &&& stream.subrange(5, 5 + data.len() as int) == data
            &&& stream.skip(5 + data.len() as int) == tail
        }),
{
    let length = data.len() as u32;
    crate::bytes::lemma_le32(length);
    let stream = shell_piece(kind, data) + tail;
    assert(stream.skip(1).take(4) =~= le32(length));
    assert forall|i: int| 0 <= i < 4 implies stream.skip(1)[i] == le32(length)[i] by {
        assert(stream.skip(1).take(4)[i] == stream.skip(1)[i]);
    }
    assert(stream.subrange(5, 5 + data.len() as int) =~= data);
    assert(stream.skip(5 + data.len() as int) =~= tail);
}

/// Output and diagnostics of a command are told apart, each in the order in which it
/// was written. Diagnostics are kept up to their bound.
pub proof fn output_and_diagnostics_are_told_apart(
    writes: ShellWrites,
    tail: Seq<u8>,
    output: Seq<u8>,
    errors: Seq<u8>,
)
    requires
        forall|i: int| 0 <= i < writes.len() ==> (#[trigger] writes[i]).1.len() <= 1048576,
        errors.len() + written(writes, true).len() <= 65536,
    ensures
        shell_run(shell_writes(writes) + tail, output, errors) == shell_run(
            tail,
            output + written(writes, false),
            errors + written(writes, true),
        ),
    decreases writes.len(),
{
    if writes.len() == 0 {
        assert(shell_writes(writes) + tail =~= tail);
        assert(output + written(writes, false) =~= output);
        assert(errors + written(writes, true) =~= errors);
    } else {
        let rest = writes.drop_first();
        let data = writes[0].1;
        let kind: u8 = if writes[0].0 {
            2
        } else {
            1
        };
        assert forall|i: int| 0 <= i < rest.len() implies (#[trigger] rest[i]).1.len() <= 1048576 by {
            assert(rest[i] == writes[i + 1]);
        }
        let left = shell_writes(rest) + tail;
        lemma_shell_piece(kind, data, left);
        let stream = shell_writes(writes) + tail;
        assert(stream =~= shell_piece(kind, data) + left);
        if writes[0].0 {
            let more = if errors.len() < MAX_DIAGNOSTICS {
                errors + data
            } else {
                errors
            };
            if errors.len() >= MAX_DIAGNOSTICS {
                assert(data.len() == 0);
                assert(errors + data =~= errors);
            }
            output_and_diagnostics_are_told_apart(rest, tail, output, more);
            assert(more + written(rest, true) =~= errors + written(writes, true));
        } else {
            output_and_diagnostics_are_told_apart(rest, tail, output + data, errors);
            assert(output + data + written(rest, false) =~= output + written(writes, false));
        }
    }
}

/// A packet of kind three ends a shell stream, with its data as the status. Of another
/// kind the stream is invalid, and so is one longer than a megabyte. A part of a packet
/// is kept until the rest has come.
pub proof fn shell_streams_end(
    kind: u8,
    data: Seq<u8>,
    tail: Seq<u8>,
    stream: Seq<u8>,
    output: Seq<u8>,
    errors: Seq<u8>,
)
    requires
        data.len() <= 1048576,
    ensures
        ({
            let run = shell_run(shell_piece(kind, data) + tail, output, errors);
            kind == 0 || kind > 2 ==> {
                &&& run.output == output
                &&& run.errors == errors
                &&& run.rest == tail
                &&& run.end == Some(
                    if kind == 3 {
                        ShellEnd::Exit(data)
                    } else {
                        ShellEnd::Invalid
                    },
                )
            }
        }),
        stream.len() >= 5 && le32_value(stream.skip(1)) > 1048576 ==> shell_run(
            stream,
            output,
            errors,
        ).end == Some(ShellEnd::<Seq<u8>>::Oversized),
        stream.len() < 5 || le32_value(stream.skip(1)) <= 1048576 && stream.len() < 5 + le32_value(
            stream.skip(1),
        ) ==> shell_run(stream, output, errors) == (ShellRun {
            output,
            errors,
            rest: stream,
            end: None,
        }),
        errors.len() >= 65536 ==> shell_run(shell_piece(2, data) + tail, output, errors)
            == shell_run(tail, output, errors),
{
    lemma_shell_piece(kind, data, tail);
    lemma_shell_piece(2, data, tail);
}

/// The words of the sync protocol are the letters of their names.
pub proof fn sync_words_are_spelled()
    ensures
        RECV@ == encode_utf8("RECV"@),
        SEND@ == encode_utf8("SEND"@),
        DATA@ == encode_utf8("DATA"@),
        DONE@ == encode_utf8("DONE"@),
        FAIL@ == encode_utf8("FAIL"@),
        OKAY@ == encode_utf8("OKAY"@),
{
    reveal_strlit("RECV");
    reveal_strlit("SEND");
    reveal_strlit("DATA");
    reveal_strlit("DONE");
    reveal_strlit("FAIL");
    reveal_strlit("OKAY");
    is_ascii_chars_encode_utf8("RECV"@);
    is_ascii_chars_encode_utf8("SEND"@);
    is_ascii_chars_encode_utf8("DATA"@);
    is_ascii_chars_encode_utf8("DONE"@);
    is_ascii_chars_encode_utf8("FAIL"@);
    is_ascii_chars_encode_utf8("OKAY"@);
    assert(RECV@ =~= encode_utf8("RECV"@));
    assert(SEND@ =~= encode_utf8("SEND"@));
    assert(DATA@ =~= encode_utf8("DATA"@));
    assert(DONE@ =~= encode_utf8("DONE"@));
    assert(FAIL@ =~= encode_utf8("FAIL"@));
    assert(OKAY@ =~= encode_utf8("OKAY"@));
}

/// A packet of the sync protocol is its word, the length of its data, least significant
/// byte first, and the data.
pub proof fn sync_packets_have_three_parts(word: Seq<u8>, data: Seq<u8>)
    requires
        word.len() == 4,
        data.len() <= u32::MAX,
    ensures
        ({
            let bytes = sync_packet(word, data);
            &&& bytes.take(4) == word
            &&& bytes.subrange(4, 8) == le32(data.len() as u32)
            &&& bytes.skip(8) == data
        }),
{
    let bytes = sync_packet(word, data);
    assert(bytes.take(4) =~= word);
    assert(bytes.subrange(4, 8) =~= le32(data.len() as u32));
    assert(bytes.skip(8) =~= data);
}

/// A file as the device sends it: each piece in a packet of its own.
pub open spec fn data_packets(pieces: Seq<Seq<u8>>) -> Seq<u8>
    decreases pieces.len(),
{
    if pieces.len() == 0 {
        seq![]
    } else {
        sync_packet(encode_utf8("DATA"@), pieces[0]) + data_packets(pieces.drop_first())
    }
}

/// How a packet of the sync protocol at the front of a stream is read.
proof fn lemma_sync_packet(word: Seq<u8>, data: Seq<u8>, tail: Seq<u8>)
    requires
        word.len() == 4,
        data.len() <= u32::MAX,
    ensures
        ({
            let stream = sync_packet(word, data) + tail;
            &&& stream.len() == 8 + data.len() + tail.len()
            &&& stream.take(4) == word
            &&& le32_value(stream.skip(4)) == data.len()
            &&& stream.subrange(8, 8 + data.len() as int) == data
            &&& stream.skip(8 + data.len() as int) == tail
        }),
{
    let length = data.len() as u32;
    crate::bytes::lemma_le32(length);
    let stream = sync_packet(word, data) + tail;
    assert(stream.take(4) =~= word);
    assert(stream.skip(4).take(4) =~= le32(length));
    assert forall|i: int| 0 <= i < 4 implies stream.skip(4)[i] == le32(length)[i] by {
        assert(stream.skip(4).take(4)[i] == stream.skip(4)[i]);
    }
    assert(stream.subrange(8, 8 + data.len() as int) =~= data);
    assert(stream.skip(8 + data.len() as int) =~= tail);
}

/// The pieces of a file are put together in the order in which they come.
pub proof fn pieces_of_a_file_are_joined(pieces: Seq<Seq<u8>>, tail: Seq<u8>, output: Seq<u8>)
    requires
        forall|i: int| 0 <= i < pieces.len() ==> (#[trigger] pieces[i]).len() <= 65536,
    ensures
        sync_run(data_packets(pieces) + tail, output) == sync_run(
            tail,
            output + pieces.flatten(),
        ),
    decreases pieces.len(),
{
    sync_words_are_spelled();
    if pieces.len() == 0 {
        assert(data_packets(pieces) + tail =~= tail);
        assert(pieces.flatten() =~= seq![]);
        assert(output + pieces.flatten() =~= output);
    } else {
        let rest = pieces.drop_first();
        assert forall|i: int| 0 <= i < rest.len() implies (#[trigger] rest[i]).len() <= 65536 by {
            assert(rest[i] == pieces[i + 1]);
        }
        let left = data_packets(rest) + tail;
        lemma_sync_packet(DATA@, pieces[0], left);
        let stream = data_packets(pieces) + tail;
        assert(stream =~= sync_packet(DATA@, pieces[0]) + left);
        assert(DATA@ != DONE@) by {
            assert(DATA@[1] != DONE@[1]);
        }
        pieces_of_a_file_are_joined(rest, tail, output + pieces[0]);
        assert(output + pieces[0] + rest.flatten() =~= output + pieces.flatten());
    }
}

/// A download ends with the word that it is done, or with the reason that the device
/// gives. Another word is invalid, and so is a packet of more than 65536 bytes.
pub proof fn downloads_end(word: Seq<u8>, data: Seq<u8>, tail: Seq<u8>, output: Seq<u8>)
    requires
        word.len() == 4,
        data.len() <= u32::MAX,
    ensures
        ({
            let run = sync_run(sync_packet(word, data) + tail, output);
            &&& word == encode_utf8("DONE"@) ==> run.output == output && run.end == Some(
                SyncEnd::<Seq<u8>>::Done,
            )
            &&& word == encode_utf8("FAIL"@) && data.len() <= 65536 ==> run.output == output
                && run.end == Some(SyncEnd::Fail(data))
            &&& word != encode_utf8("DONE"@) && (data.len() > 65536 || word != encode_utf8("FAIL"@)
                && word != encode_utf8("DATA"@)) ==> run.output == output && run.end == Some(
                SyncEnd::<Seq<u8>>::Invalid,
            )
        }),
{
    sync_words_are_spelled();
    lemma_sync_packet(word, data, tail);
    assert(DATA@ != DONE@) by {
        assert(DATA@[1] != DONE@[1]);
    }
    assert(DATA@ != FAIL@) by {
        assert(DATA@[0] != FAIL@[0]);
    }
    assert(DONE@ != FAIL@) by {
        assert(DONE@[0] != FAIL@[0]);
    }
}

} // verus!
