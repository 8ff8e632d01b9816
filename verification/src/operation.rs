//! Operations on a device: a service that is opened and then driven to its end.

use crate::bytes::{lemma_le32, push_bytes};
use crate::error::{failure, AdbResult, RustADBError};
use crate::message::{bare, command_name, packet, ADBTransportMessage, MessageCommand, Packet};
use crate::service::{
    build_sync, carries, close, data_packets, downloads_end, fails, okay,
    output_and_diagnostics_are_told_apart, outcome_view, pieces_of_a_file_are_joined, read_shell,
    read_sync, shell_piece, shell_run, shell_streams_end, shell_writes, sync_packet, sync_run,
    sync_words_are_spelled, written, Action, Answer, DispatchedService, Outcome, ShellEnd,
    ShellProgress, ShellWrites, Step, SyncEnd, SyncProgress, CHUNK_SIZE, DATA, DONE, FAIL, OKAY,
    RECV, SEND,
};
use crate::text::{
    append, copy_text, decimal, decode_lossy, format_decimal, lossy, same_bytes,
};
use vstd::prelude::*;
use vstd::utf8::*;

verus! {

/// What an operation is for.
#[derive(Debug)]
pub enum Task<T> {
    /// Run a command and put its output out.
    Shell,
    /// Download the file at a path.
    Pull(T),
    /// Upload a file to a path.
    Push(T),
    /// Put the output of a service out.
    Drain,
    /// Collect the answer of a service and hold it against a grant.
    Collect,
}

/// How far an operation has come.
#[derive(Debug)]
pub enum Stage<T, B> {
    /// The stream is being opened.
    Opening(Task<T>),
    /// A command runs.
    Shell {
        /// The bytes of a packet that is not complete.
        buffered: B,
        /// The diagnostics so far.
        errors: B,
    },
    /// A download was asked for.
    PullRequested,
    /// A download runs.
    Pulling {
        /// The bytes of a packet that is not complete.
        buffered: B,
    },
    /// An upload waits for the acknowledgement of what was sent last.
    PushSending {
        /// Whether that was the last packet.
        finishing: bool,
    },
    /// An upload waits for the next piece of the file.
    PushReady,
    /// An upload waits for its result.
    PushResult,
    /// The output of a service is put out.
    Draining,
    /// The answer of a service is collected.
    Collecting(B),
    /// A download is over.
    Pulled,
    /// The operation is over.
    Ended,
}

/// A running operation.
#[derive(Debug)]
pub struct Operation {
    service: DispatchedService,
    stage: Stage<String, Vec<u8>>,
}

/// What a running operation is.
#[verifier::ext_equal]
pub ghost struct Progress {
    /// The two ends of its stream; the device end is zero while it is opened.
    pub service: DispatchedService,
    /// How far it has come.
    pub stage: Stage<Seq<char>, Seq<u8>>,
}

/// What a task says.
pub open spec fn task_view(task: Task<String>) -> Task<Seq<char>> {
    match task {
        Task::Shell => Task::Shell,
        Task::Pull(path) => Task::Pull(path@),
        Task::Push(path) => Task::Push(path@),
        Task::Drain => Task::Drain,
        Task::Collect => Task::Collect,
    }
}

/// What a stage says.
pub open spec fn stage_view(stage: Stage<String, Vec<u8>>) -> Stage<Seq<char>, Seq<u8>> {
    match stage {
        Stage::Opening(task) => Stage::Opening(task_view(task)),
        Stage::Shell { buffered, errors } => Stage::Shell { buffered: buffered@, errors: errors@ },
        Stage::PullRequested => Stage::PullRequested,
        Stage::Pulling { buffered } => Stage::Pulling { buffered: buffered@ },
        Stage::PushSending { finishing } => Stage::PushSending { finishing },
        Stage::PushReady => Stage::PushReady,
        Stage::PushResult => Stage::PushResult,
        Stage::Draining => Stage::Draining,
        Stage::Collecting(response) => Stage::Collecting(response@),
        Stage::Pulled => Stage::Pulled,
        Stage::Ended => Stage::Ended,
    }
}

/// A step without actions that does not end the operation.
pub open spec fn silent() -> Answer {
    Answer { actions: seq![], outcome: None }
}

/// A step that ends the operation without actions.
pub open spec fn ends(outcome: Outcome) -> Answer {
    Answer { actions: seq![], outcome }
}

/// A step that sends one packet.
pub open spec fn sends(packet: Packet) -> Answer {
    Answer { actions: seq![Action::Send(packet)], outcome: None }
}

/// The step that asks the file service for something, or fails where the request
/// is too long for a packet.
pub open spec fn asks(
    service: DispatchedService,
    request: Seq<u8>,
    next: Stage<Seq<char>, Seq<u8>>,
) -> (Progress, Answer) {
    if request.len() <= u32::MAX {
        (Progress { service, stage: next }, sends(carries(service, request)))
    } else {
        (
            Progress { service, stage: Stage::Ended },
            ends(Some(Err(RustADBError::NumberOverflow))),
        )
    }
}

/// The destination of an upload: the path and the mode of the file.
pub open spec fn push_destination(path: Seq<char>) -> Seq<char> {
    path + ",0777"@
}

/// What an operation does once its stream is open.
pub open spec fn after_open(service: DispatchedService, task: Task<Seq<char>>) -> (
    Progress,
    Answer,
) {
    match task {
        Task::Shell => (
            Progress { service, stage: Stage::Shell { buffered: seq![], errors: seq![] } },
            silent(),
        ),
        Task::Pull(path) => asks(
            service,
            sync_packet(RECV@, encode_utf8(path)),
            Stage::PullRequested,
        ),
        Task::Push(path) => asks(
            service,
            sync_packet(SEND@, encode_utf8(push_destination(path))),
            Stage::PushSending { finishing: false },
        ),
        Task::Drain => (Progress { service, stage: Stage::Draining }, silent()),
        Task::Collect => (Progress { service, stage: Stage::Collecting(seq![]) }, silent()),
    }
}

/// The end of a command: the exit status zero is success, any other, or none, is
/// a failure with the diagnostics.
pub open spec fn exit_outcome(data: Seq<u8>, errors: Seq<u8>) -> Outcome {
    if data.len() > 0 && data[0] == 0 {
        Some(Ok(()))
    } else {
        fails("remote command exited "@ + exit_text(data) + ": "@ + lossy(errors))
    }
}

/// The text of an exit status.
pub open spec fn exit_text(data: Seq<u8>) -> Seq<char> {
    if data.len() > 0 {
        "Some("@ + decimal(data[0] as nat) + ")"@
    } else {
        "None"@
    }
}

/// The actions that put bytes out.
pub open spec fn puts(bytes: Seq<u8>) -> Seq<Action<Packet, Seq<u8>>> {
    if bytes.len() > 0 {
        seq![Action::Output(bytes)]
    } else {
        seq![]
    }
}

/// A step of a command.
pub open spec fn shell_step(
    service: DispatchedService,
    buffered: Seq<u8>,
    errors: Seq<u8>,
    packet: Packet,
) -> (Progress, Answer) {
    let ended = Progress { service, stage: Stage::Ended };
    match packet.command {
        MessageCommand::Write => {
            let run = shell_run(buffered + packet.payload, seq![], errors);
            let begun = seq![Action::Send(okay(service))] + puts(run.output);
            match run.end {
                None => (
                    Progress {
                        service,
                        stage: Stage::Shell { buffered: run.rest, errors: run.errors },
                    },
                    Answer { actions: begun, outcome: None },
                ),
                Some(ShellEnd::Exit(data)) => (
                    ended,
                    Answer {
                        actions: begun.push(Action::Send(close(service))),
                        outcome: exit_outcome(data, run.errors),
                    },
                ),
                Some(ShellEnd::Oversized) => (
                    ended,
                    Answer { actions: begun, outcome: fails("oversized shell packet"@) },
                ),
                Some(ShellEnd::Invalid) => (
                    ended,
                    Answer { actions: begun, outcome: fails("invalid shell packet"@) },
                ),
            }
        },
        MessageCommand::Okay => (
            Progress { service, stage: Stage::Shell { buffered, errors } },
            silent(),
        ),
        MessageCommand::Clse => (
            ended,
            Answer {
                actions: seq![Action::TrySend(close(service))],
                outcome: fails("device closed service before completion"@),
            },
        ),
        _ => (ended, ends(fails("unexpected service packet"@))),
    }
}

/// A step of a download.
pub open spec fn pull_step(
    service: DispatchedService,
    buffered: Seq<u8>,
    packet: Packet,
) -> (Progress, Answer) {
    let ended = Progress { service, stage: Stage::Pulled };
    let closing = Action::TrySend(close(service));
    match packet.command {
        MessageCommand::Write => {
            let run = sync_run(buffered + packet.payload, seq![]);
            let begun = seq![Action::Send(okay(service))] + puts(run.output);
            match run.end {
                None => (
                    Progress { service, stage: Stage::Pulling { buffered: run.rest } },
                    Answer { actions: begun, outcome: None },
                ),
                Some(SyncEnd::Done) => (
                    ended,
                    Answer { actions: begun.push(closing), outcome: Some(Ok(())) },
                ),
                Some(SyncEnd::Fail(data)) => (
                    ended,
                    Answer { actions: begun.push(closing), outcome: fails(lossy(data)) },
                ),
                Some(SyncEnd::Invalid) => (
                    ended,
                    Answer {
                        actions: begun.push(closing),
                        outcome: fails("invalid sync download packet"@),
                    },
                ),
            }
        },
        MessageCommand::Okay => (Progress { service, stage: Stage::Pulling { buffered } }, silent()),
        MessageCommand::Clse => (
            ended,
            Answer {
                actions: seq![closing, closing],
                outcome: fails("device closed service before completion"@),
            },
        ),
        _ => (
            ended,
            Answer { actions: seq![closing], outcome: fails("unexpected service packet"@) },
        ),
    }
}

/// Whether an answer begins with a grant.
pub open spec fn granted(answer: Seq<u8>) -> bool {
    answer.len() >= 4 && answer.take(4) == OKAY@
}

/// The last step of an upload.
pub open spec fn push_result(service: DispatchedService, packet: Packet) -> (Progress, Answer) {
    let ended = Progress { service, stage: Stage::Ended };
    if packet.command != MessageCommand::Write {
        (ended, ends(fails("sync push did not return a result packet"@)))
    } else {
        (
            ended,
            Answer {
                actions: seq![Action::Send(okay(service)), Action::Send(close(service))],
                outcome: if granted(packet.payload) {
                    Some(Ok(()))
                } else {
                    fails("sync push failed: "@ + lossy(packet.payload))
                },
            },
        )
    }
}

/// The failure of a service that answers out of turn.
pub open spec fn out_of_turn(command: MessageCommand) -> Outcome {
    fails("unexpected "@ + command_name(command) + " in dispatched shell session"@)
}

/// A step of a service whose output is put out.
pub open spec fn drain_step(service: DispatchedService, packet: Packet) -> (Progress, Answer) {
    let ended = Progress { service, stage: Stage::Ended };
    let same = Progress { service, stage: Stage::Draining };
    match packet.command {
        MessageCommand::Write => (
            same,
            Answer {
                actions: puts(packet.payload).push(Action::Send(okay(service))),
                outcome: None,
            },
        ),
        MessageCommand::Okay => (same, silent()),
        MessageCommand::Clse => (
            ended,
            Answer { actions: seq![Action::Send(close(service))], outcome: Some(Ok(())) },
        ),
        _ => (ended, ends(out_of_turn(packet.command))),
    }
}

/// A step of a service whose answer is collected.
pub open spec fn collect_step(
    service: DispatchedService,
    response: Seq<u8>,
    packet: Packet,
) -> (Progress, Answer) {
    let ended = Progress { service, stage: Stage::Ended };
    match packet.command {
        MessageCommand::Write => (
            Progress { service, stage: Stage::Collecting(response + packet.payload) },
            sends(okay(service)),
        ),
        MessageCommand::Okay => (
            Progress { service, stage: Stage::Collecting(response) },
            silent(),
        ),
        MessageCommand::Clse => (
            ended,
            Answer {
                actions: seq![Action::Send(close(service))],
                outcome: if granted(response) {
                    Some(Ok(()))
                } else {
                    fails("reverse failed: "@ + lossy(response))
                },
            },
        ),
        _ => (ended, ends(out_of_turn(packet.command))),
    }
}

/// A step of an operation.
pub open spec fn step(progress: Progress, packet: Packet) -> (Progress, Answer) {
    let service = progress.service;
    let ended = Progress { service, stage: Stage::Ended };
    match progress.stage {
        Stage::Opening(task) => if packet.command == MessageCommand::Okay && packet.arg1
            == service.local_id {
            after_open(
                DispatchedService { local_id: service.local_id, remote_id: packet.arg0 },
                task,
            )
        } else {
            (
                ended,
                ends(
                    fails(
                        "open dispatched session failed: expected OKAY for "@ + decimal(
                            service.local_id as nat,
                        ),
                    ),
                ),
            )
        },
        Stage::Shell { buffered, errors } => shell_step(service, buffered, errors, packet),
        Stage::PullRequested => if packet.command == MessageCommand::Okay {
            (Progress { service, stage: Stage::Pulling { buffered: seq![] } }, silent())
        } else {
            (ended, ends(fails("ADB service did not acknowledge write"@)))
        },
        Stage::Pulling { buffered } => pull_step(service, buffered, packet),
        Stage::PushSending { finishing } => if packet.command == MessageCommand::Okay {
            (
                Progress {
                    service,
                    stage: if finishing {
                        Stage::PushResult
                    } else {
                        Stage::PushReady
                    },
                },
                silent(),
            )
        } else {
            (ended, ends(fails("ADB service did not acknowledge write"@)))
        },
        Stage::PushResult => push_result(service, packet),
        Stage::Draining => drain_step(service, packet),
        Stage::Collecting(response) => collect_step(service, response, packet),
        Stage::PushReady => (progress, silent()),
        Stage::Pulled => (progress, silent()),
        Stage::Ended => (progress, silent()),
    }
}

/// What the file service is told of a piece of a file; an empty piece ends it.
pub open spec fn piece_request(piece: Seq<u8>) -> Seq<u8> {
    if piece.len() == 0 {
        sync_packet(DONE@, seq![])
    } else {
        sync_packet(DATA@, piece)
    }
}

/// The step of an upload that is handed a piece of its file.
pub open spec fn input_step(service: DispatchedService, piece: Seq<u8>) -> (Progress, Answer) {
    (
        Progress { service, stage: Stage::PushSending { finishing: piece.len() == 0 } },
        sends(carries(service, piece_request(piece))),
    )
}

/// A piece of a file fits a packet.
proof fn lemma_piece_fits(service: DispatchedService, piece: Seq<u8>)
    requires
        piece.len() <= CHUNK_SIZE,
    ensures
        input_step(service, piece) == asks(
            service,
            piece_request(piece),
            Stage::PushSending { finishing: piece.len() == 0 },
        ),
{
    lemma_le32(piece.len() as u32);
    lemma_le32(0);
}

/// A failure that carries a text after a prefix.
fn failure_with(prefix: &str, text: &str) -> (error: RustADBError<String>)
    ensures
        error@ == RustADBError::ADBRequestFailed(prefix@ + text@),
{
    let mut message: String = copy_text(prefix);
    append(&mut message, text);
    RustADBError::ADBRequestFailed(message)
}

/// Whether an answer begins with a grant.
fn is_granted(answer: &[u8]) -> (result: bool)
    ensures
        result == granted(answer@),
{
    if answer.len() < 4 {
        return false;
    }
    let word: Vec<u8> = crate::bytes::copy_bytes(answer, 0, 4);
    assert(word@ =~= answer@.take(4));
    same_bytes(&word, &OKAY)
}

/// The outcome of a command that exited.
fn exit_result(data: &[u8], errors: &[u8]) -> (outcome: AdbResult<()>)
    ensures
        outcome_view(Some(outcome)) == exit_outcome(data@, errors@),
{
    if data.len() > 0 && data[0] == 0 {
        return Ok(());
    }
    let mut text: String = copy_text("remote command exited ");
    if data.len() > 0 {
        append(&mut text, "Some(");
        append(&mut text, &format_decimal(data[0] as u64));
        append(&mut text, ")");
    } else {
        append(&mut text, "None");
    }
    append(&mut text, ": ");
    append(&mut text, &decode_lossy(errors));
    assert(text@ =~= "remote command exited "@ + exit_text(data@) + ": "@ + lossy(errors@));
    Err(RustADBError::ADBRequestFailed(text))
}

/// The failure of a service that answers out of turn.
fn turn_failure(command: MessageCommand) -> (error: RustADBError<String>)
    ensures
        Some(Err::<(), _>(error@)) == out_of_turn(command),
{
    let mut text: String = copy_text("unexpected ");
    append(&mut text, command.name());
    append(&mut text, " in dispatched shell session");
    RustADBError::ADBRequestFailed(text)
}

/// Adds the action that puts bytes out, where there are any.
fn putting(step: Step, bytes: Vec<u8>) -> (result: Step)
    ensures
        result@ == (Answer { actions: step@.actions + puts(bytes@), ..step@ }),
{
    if bytes.len() > 0 {
        let result = step.with(Action::Output(bytes));
        assert(result@.actions =~= step@.actions + puts(bytes@));
        result
    } else {
        assert(step@.actions + puts(bytes@) =~= step@.actions);
        step
    }
}

/// Joins two byte strings.
fn joined(first: Vec<u8>, second: &[u8]) -> (bytes: Vec<u8>)
    ensures
        bytes@ == first@ + second@,
{
    let mut bytes = first;
    push_bytes(&mut bytes, second);
    bytes
}

impl Operation {
    /// What the operation is.
    pub closed spec fn view(&self) -> Progress {
        Progress { service: self.service, stage: stage_view(self.stage) }
    }

    /// Whether the operation waits for a packet.
    pub open spec fn listens(&self) -> bool {
        !(self@.stage is PushReady) && !(self@.stage is Pulled) && !(self@.stage is Ended)
    }

    /// Begins an operation on a stream that is being opened.
    pub fn begin(local_id: u32, task: Task<String>) -> (operation: Operation)
        ensures
            operation@ == (Progress {
                service: DispatchedService { local_id, remote_id: 0 },
                stage: Stage::Opening(task_view(task)),
            }),
    {
        Operation {
            service: DispatchedService { local_id, remote_id: 0 },
            stage: Stage::Opening(task),
        }
    }

    /// The identifier of the session.
    pub fn local_id(&self) -> (id: u32)
        ensures
            id == self@.service.local_id,
    {
        self.service.local_id
    }

    /// Whether an upload waits for the next piece of its file.
    pub fn wants_input(&self) -> (wants: bool)
        ensures
            wants == (self@.stage is PushReady),
    {
        match &self.stage {
            Stage::PushReady => true,
            _ => false,
        }
    }

    /// Asks the file service for something.
    fn ask(
        service: DispatchedService,
        word: &[u8; 4],
        data: &[u8],
        next: Stage<String, Vec<u8>>,
    ) -> (result: (Operation, Step))
        ensures
            (result.0@, result.1@) == asks(
                service,
                sync_packet(word@, data@),
                stage_view(next),
            ),
    {
        let ended = Stage::Ended;
        let request: Vec<u8> = match build_sync(word, data) {
            Ok(request) => request,
            Err(error) => return (
                Operation { service, stage: ended },
                Step::idle().ending(Err(error)),
            ),
        };
        match service.write(&request) {
            Ok(message) => {
                let step = Step::idle().with(Action::Send(message));
                assert(step@.actions =~= seq![Action::Send(message@)]);
                (Operation { service, stage: next }, step)
            },
            Err(error) => (Operation { service, stage: ended }, Step::idle().ending(Err(error))),
        }
    }

    /// Goes on once the stream is open.
    fn proceed(service: DispatchedService, task: Task<String>) -> (result: (Operation, Step))
        ensures
            (result.0@, result.1@) == after_open(service, task_view(task)),
    {
        match task {
            Task::Shell => {
                let stage = Stage::Shell { buffered: Vec::new(), errors: Vec::new() };
                (Operation { service, stage }, Step::idle())
            },
            Task::Pull(path) => Self::ask(
                service,
                &RECV,
                path.as_str().as_bytes(),
                Stage::PullRequested,
            ),
            Task::Push(path) => {
                let mut destination: String = copy_text(&path);
                append(&mut destination, ",0777");
                Self::ask(
                    service,
                    &SEND,
                    destination.as_str().as_bytes(),
                    Stage::PushSending { finishing: false },
                )
            },
            Task::Drain => (Operation { service, stage: Stage::Draining }, Step::idle()),
            Task::Collect => {
                (Operation { service, stage: Stage::Collecting(Vec::new()) }, Step::idle())
            },
        }
    }

    /// Goes on with a command.
    fn on_shell(
        service: DispatchedService,
        buffered: Vec<u8>,
        errors: Vec<u8>,
        packet: &ADBTransportMessage,
    ) -> (result: (Operation, Step))
        ensures
            (result.0@, result.1@) == shell_step(service, buffered@, errors@, packet@),
    {
        let ended = Operation { service, stage: Stage::Ended };
        match packet.header.command {
            MessageCommand::Write => {
                let stream: Vec<u8> = joined(buffered, &packet.payload);
                let ShellProgress { output, errors: diagnostics, rest, end } = read_shell(
                    &stream,
                    &errors,
                );
                let begun = putting(
                    Step::idle().with(Action::Send(service.acknowledge())),
                    output,
                );
                assert(begun@.actions =~= seq![Action::Send(okay(service))] + puts(output@));
                match end {
                    None => (
                        Operation {
                            service,
                            stage: Stage::Shell { buffered: rest, errors: diagnostics },
                        },
                        begun,
                    ),
                    Some(ShellEnd::Exit(data)) => (
                        ended,
                        begun.with(Action::Send(service.close_ack())).ending(
                            exit_result(&data, &diagnostics),
                        ),
                    ),
                    Some(ShellEnd::Oversized) => (
                        ended,
                        begun.ending(Err(failure("oversized shell packet"))),
                    ),
                    Some(ShellEnd::Invalid) => (
                        ended,
                        begun.ending(Err(failure("invalid shell packet"))),
                    ),
                }
            },
            MessageCommand::Okay => (
                Operation { service, stage: Stage::Shell { buffered, errors } },
                Step::idle(),
            ),
            MessageCommand::Clse => {
                let step = Step::idle().with(Action::TrySend(service.close_ack())).ending(
                    Err(failure("device closed service before completion")),
                );
                assert(step@.actions =~= seq![Action::TrySend(close(service))]);
                (ended, step)
            },
            _ => (ended, Step::idle().ending(Err(failure("unexpected service packet")))),
        }
    }

    /// Goes on with a download.
    fn on_pull(
        service: DispatchedService,
        buffered: Vec<u8>,
        packet: &ADBTransportMessage,
    ) -> (result: (Operation, Step))
        ensures
            (result.0@, result.1@) == pull_step(service, buffered@, packet@),
    {
        let ended = Operation { service, stage: Stage::Pulled };
        match packet.header.command {
            MessageCommand::Write => {
                let stream: Vec<u8> = joined(buffered, &packet.payload);
                let SyncProgress { output, rest, end } = read_sync(&stream);
                let begun = putting(
                    Step::idle().with(Action::Send(service.acknowledge())),
                    output,
                );
                assert(begun@.actions =~= seq![Action::Send(okay(service))] + puts(output@));
                match end {
                    None => (
                        Operation { service, stage: Stage::Pulling { buffered: rest } },
                        begun,
                    ),
                    Some(SyncEnd::Done) => (
                        ended,
                        begun.with(Action::TrySend(service.close_ack())).ending(Ok(())),
                    ),
                    Some(SyncEnd::Fail(data)) => (
                        ended,
                        begun.with(Action::TrySend(service.close_ack())).ending(
                            Err(RustADBError::ADBRequestFailed(decode_lossy(&data))),
                        ),
                    ),
                    Some(SyncEnd::Invalid) => (
                        ended,
                        begun.with(Action::TrySend(service.close_ack())).ending(
                            Err(failure("invalid sync download packet")),
                        ),
                    ),
                }
            },
            MessageCommand::Okay => (
                Operation { service, stage: Stage::Pulling { buffered } },
                Step::idle(),
            ),
            MessageCommand::Clse => {
                let step = Step::idle().with(Action::TrySend(service.close_ack())).with(
                    Action::TrySend(service.close_ack()),
                ).ending(Err(failure("device closed service before completion")));
                assert(step@.actions =~= seq![
                    Action::TrySend(close(service)),
                    Action::TrySend(close(service)),
                ]);
                (ended, step)
            },
            _ => {
                let step = Step::idle().with(Action::TrySend(service.close_ack())).ending(
                    Err(failure("unexpected service packet")),
                );
                assert(step@.actions =~= seq![Action::TrySend(close(service))]);
                (ended, step)
            },
        }
    }

    /// Ends an upload.
    fn on_push_result(service: DispatchedService, packet: &ADBTransportMessage) -> (result: (
        Operation,
        Step,
    ))
        ensures
            (result.0@, result.1@) == push_result(service, packet@),
    {
        let ended = Operation { service, stage: Stage::Ended };
        if packet.header.command != MessageCommand::Write {
            return (
                ended,
                Step::idle().ending(Err(failure("sync push did not return a result packet"))),
            );
        }
        let step = Step::idle().with(Action::Send(service.acknowledge())).with(
            Action::Send(service.close_ack()),
        );
        assert(step@.actions =~= seq![
            Action::Send(okay(service)),
            Action::Send(close(service)),
        ]);
        if is_granted(&packet.payload) {
            (ended, step.ending(Ok(())))
        } else {
            let reason: String = decode_lossy(&packet.payload);
            (ended, step.ending(Err(failure_with("sync push failed: ", &reason))))
        }
    }

    /// Goes on with a service whose output is put out.
    fn on_drain(service: DispatchedService, packet: &ADBTransportMessage) -> (result: (
        Operation,
        Step,
    ))
        ensures
            (result.0@, result.1@) == drain_step(service, packet@),
    {
        let ended = Operation { service, stage: Stage::Ended };
        let same = Operation { service, stage: Stage::Draining };
        match packet.header.command {
            MessageCommand::Write => {
                let copy: Vec<u8> = joined(Vec::new(), &packet.payload);
                assert(copy@ =~= packet.payload@);
                let begun = putting(Step::idle(), copy);
                assert(begun@.actions =~= puts(packet.payload@));
                (same, begun.with(Action::Send(service.acknowledge())))
            },
            MessageCommand::Okay => (same, Step::idle()),
            MessageCommand::Clse => {
                let step = Step::idle().with(Action::Send(service.close_ack())).ending(Ok(()));
                assert(step@.actions =~= seq![Action::Send(close(service))]);
                (ended, step)
            },
            command => (ended, Step::idle().ending(Err(turn_failure(command)))),
        }
    }

    /// Goes on with a service whose answer is collected.
    fn on_collect(
        service: DispatchedService,
        response: Vec<u8>,
        packet: &ADBTransportMessage,
    ) -> (result: (Operation, Step))
        ensures
            (result.0@, result.1@) == collect_step(service, response@, packet@),
    {
        let ended = Operation { service, stage: Stage::Ended };
        match packet.header.command {
            MessageCommand::Write => {
                let more: Vec<u8> = joined(response, &packet.payload);
                let step = Step::idle().with(Action::Send(service.acknowledge()));
                assert(step@.actions =~= seq![Action::Send(okay(service))]);
                (Operation { service, stage: Stage::Collecting(more) }, step)
            },
            MessageCommand::Okay => (
                Operation { service, stage: Stage::Collecting(response) },
                Step::idle(),
            ),
            MessageCommand::Clse => {
                let step = Step::idle().with(Action::Send(service.close_ack()));
                assert(step@.actions =~= seq![Action::Send(close(service))]);
                if is_granted(&response) {
                    (ended, step.ending(Ok(())))
                } else {
                    let reason: String = decode_lossy(&response);
                    (ended, step.ending(Err(failure_with("reverse failed: ", &reason))))
                }
            },
            command => (ended, Step::idle().ending(Err(turn_failure(command)))),
        }
    }

    /// Answers a packet of the stream.
    pub fn on_packet(self, packet: &ADBTransportMessage) -> (result: (Operation, Step))
        requires
            self.listens(),
        ensures
            (result.0@, result.1@) == step(self@, packet@),
    {
        let service = self.service;
        let ended = Operation { service, stage: Stage::Ended };
        match self.stage {
            Stage::Opening(task) => if packet.header.command == MessageCommand::Okay
                && packet.header.arg1 == service.local_id {
                Self::proceed(
                    DispatchedService {
                        local_id: service.local_id,
                        remote_id: packet.header.arg0,
                    },
                    task,
                )
            } else {
                let id: String = format_decimal(service.local_id as u64);
                (
                    ended,
                    Step::idle().ending(
                        Err(
                            failure_with(
                                "open dispatched session failed: expected OKAY for ",
                                &id,
                            ),
                        ),
                    ),
                )
            },
            Stage::Shell { buffered, errors } => Self::on_shell(service, buffered, errors, packet),
            Stage::PullRequested => if packet.header.command == MessageCommand::Okay {
                (
                    Operation { service, stage: Stage::Pulling { buffered: Vec::new() } },
                    Step::idle(),
                )
            } else {
                (
                    ended,
                    Step::idle().ending(Err(failure("ADB service did not acknowledge write"))),
                )
            },
            Stage::Pulling { buffered } => Self::on_pull(service, buffered, packet),
            Stage::PushSending { finishing } => if packet.header.command == MessageCommand::Okay {
                let stage = if finishing {
                    Stage::PushResult
                } else {
                    Stage::PushReady
                };
                (Operation { service, stage }, Step::idle())
            } else {
                (
                    ended,
                    Step::idle().ending(Err(failure("ADB service did not acknowledge write"))),
                )
            },
            Stage::PushResult => Self::on_push_result(service, packet),
            Stage::Draining => Self::on_drain(service, packet),
            Stage::Collecting(response) => Self::on_collect(service, response, packet),
            Stage::PushReady => (Operation { service, stage: Stage::PushReady }, Step::idle()),
            Stage::Pulled => (Operation { service, stage: Stage::Pulled }, Step::idle()),
            Stage::Ended => (ended, Step::idle()),
        }
    }

    /// Ends the operation where one of the actions of its last step failed, or where
    /// nothing more can be received or read.
    pub fn on_failed(self, error: RustADBError<String>) -> (result: (Operation, Step))
        ensures
            (result.0@, result.1@) == failed_step(self@, error@),
    {
        let service = self.service;
        let ended = Operation { service, stage: Stage::Ended };
        let step = match self.stage {
            Stage::Pulling { .. } | Stage::Pulled => Step::idle().with(
                Action::TrySend(service.close_ack()),
            ),
            _ => Step::idle(),
        };
        assert(step@.actions =~= failed_step(self@, error@).1.actions);
        (ended, step.ending(Err(error)))
    }

    /// Sends the next piece of an upload; an empty piece ends the file.
    pub fn on_input(self, piece: &[u8]) -> (result: (Operation, Step))
        requires
            self@.stage is PushReady,
            piece@.len() <= CHUNK_SIZE,
        ensures
            (result.0@, result.1@) == input_step(self@.service, piece@),
    {
        proof {
            lemma_piece_fits(self.service, piece@);
        }
        if piece.len() == 0 {
            let nothing: Vec<u8> = Vec::new();
            assert(nothing@ =~= seq![]);
            Self::ask(self.service, &DONE, &nothing, Stage::PushSending { finishing: true })
        } else {
            Self::ask(self.service, &DATA, piece, Stage::PushSending { finishing: false })
        }
    }
}

/// How an operation ends where a packet cannot be sent or received, output cannot be
/// put out, or the file of an upload cannot be read. A download closes its stream.
pub open spec fn failed_step(progress: Progress, error: RustADBError<Seq<char>>) -> (
    Progress,
    Answer,
) {
    let service = progress.service;
    (
        Progress { service, stage: Stage::Ended },
        Answer {
            actions: if progress.stage is Pulling || progress.stage is Pulled {
                seq![Action::TrySend(close(service))]
            } else {
                seq![]
            },
            outcome: Some(Err(error)),
        },
    )
}

/// The packet by which the device acknowledges a write.
pub open spec fn acknowledgement(service: DispatchedService) -> Packet {
    bare(MessageCommand::Okay, service.remote_id, service.local_id)
}

/// What an upload that is handed pieces, each once the one before is acknowledged,
/// has come to, and the actions that it asked for.
pub open spec fn uploaded(progress: Progress, pieces: Seq<Seq<u8>>) -> (
    Progress,
    Seq<Action<Packet, Seq<u8>>>,
)
    decreases pieces.len(),
{
    if pieces.len() == 0 {
        (progress, seq![])
    } else {
        let before = uploaded(progress, pieces.drop_last());
        let sent = input_step(before.0.service, pieces.last());
        let after = step(sent.0, acknowledgement(before.0.service));
        (after.0, before.1 + sent.1.actions + after.1.actions)
    }
}

/// The writes that carry pieces of a file.
pub open spec fn piece_writes(service: DispatchedService, pieces: Seq<Seq<u8>>) -> Seq<
    Action<Packet, Seq<u8>>,
> {
    pieces.map_values(
        |piece: Seq<u8>| Action::<Packet, Seq<u8>>::Send(carries(service, piece_request(piece))),
    )
}

/// An upload names its destination, then sends the pieces of its file, each in one
/// packet, then ends the file, and succeeds exactly where the device grants it.
pub proof fn uploads_send_the_file(
    service: DispatchedService,
    path: Seq<char>,
    pieces: Seq<Seq<u8>>,
    answer: Seq<u8>,
)
    requires
        encode_utf8(push_destination(path)).len() + 8 <= u32::MAX,
        forall|i: int|
            0 <= i < pieces.len() ==> 0 < (#[trigger] pieces[i]).len() <= CHUNK_SIZE,
    ensures
        ({
            let opened = after_open(service, Task::Push(path));
            let ready = step(opened.0, acknowledgement(service));
            let run = uploaded(ready.0, pieces.push(seq![]));
            let (ended, result) = step(
                run.0,
                packet(MessageCommand::Write, service.remote_id, service.local_id, answer),
            );
            &&& opened.1 == sends(
                carries(service, sync_packet(SEND@, encode_utf8(push_destination(path)))),
            )
            &&& ready == (Progress { service, stage: Stage::PushReady }, silent())
            &&& run.1 == piece_writes(service, pieces.push(seq![]))
            &&& forall|i: int|
                0 <= i < pieces.len() ==> piece_request(#[trigger] pieces[i]) == sync_packet(
                    DATA@,
                    pieces[i],
                )
            &&& piece_request(seq![]) == sync_packet(DONE@, seq![])
            &&& result.outcome is Some
            &&& result.outcome == Some(Ok::<(), RustADBError<Seq<char>>>(())) <==> granted(answer)
        }),
{
    let bytes = encode_utf8(push_destination(path));
    lemma_le32(bytes.len() as u32);
    let ready = Progress { service, stage: Stage::PushReady };
    lemma_uploaded(service, pieces);
    let all = pieces.push(seq![]);
    assert(all.drop_last() =~= pieces);
    assert(uploaded(ready, all).1 =~= piece_writes(service, all));
}

/// An upload is ready for the next piece once the one before is acknowledged.
proof fn lemma_uploaded(service: DispatchedService, pieces: Seq<Seq<u8>>)
    requires
        forall|i: int|
            0 <= i < pieces.len() ==> 0 < (#[trigger] pieces[i]).len() <= CHUNK_SIZE,
    ensures
        ({
            let ready = Progress { service, stage: Stage::PushReady };
            uploaded(ready, pieces) == (ready, piece_writes(service, pieces))
        }),
    decreases pieces.len(),
{
    let ready = Progress { service, stage: Stage::PushReady };
    if pieces.len() > 0 {
        let front = pieces.drop_last();
        assert forall|i: int| 0 <= i < front.len() implies 0 < (#[trigger] front[i]).len()
            <= CHUNK_SIZE by {
            assert(front[i] == pieces[i]);
        }
        lemma_uploaded(service, front);
    }
    assert(uploaded(ready, pieces).1 =~= piece_writes(service, pieces));
}

/// After a piece an upload takes no other until the device acknowledges it, and
/// fails on any other answer.
pub proof fn pieces_wait_for_acknowledgements(
    service: DispatchedService,
    piece: Seq<u8>,
    said: Packet,
)
    ensures
        ({
            let sent = input_step(service, piece).0;
            let (next, answer) = step(sent, said);
            &&& !(sent.stage is PushReady)
            &&& said.command == MessageCommand::Okay <==> answer.outcome is None
            &&& said.command == MessageCommand::Okay ==> if piece.len() == 0 {
                next.stage is PushResult
            } else {
                next.stage is PushReady
            }
            &&& said.command != MessageCommand::Okay ==> answer.outcome == fails(
                "ADB service did not acknowledge write"@,
            )
        }),
{
}

/// The outcome of an operation that is handed packets, once it has one.
pub open spec fn answered(progress: Progress, said: Seq<Packet>) -> Outcome
    decreases said.len(),
{
    if said.len() == 0 {
        None
    } else {
        let (next, answer) = step(progress, said[0]);
        if answer.outcome is Some {
            answer.outcome
        } else {
            answered(next, said.drop_first())
        }
    }
}

/// What a service says before it closes its stream, where it says it in turn.
pub open spec fn collected(response: Seq<u8>, said: Seq<Packet>) -> Option<Seq<u8>>
    decreases said.len(),
{
    if said.len() == 0 {
        None
    } else {
        match said[0].command {
            MessageCommand::Write => collected(response + said[0].payload, said.drop_first()),
            MessageCommand::Okay => collected(response, said.drop_first()),
            MessageCommand::Clse => Some(response),
            _ => None,
        }
    }
}

/// Whether a device opens a stream for a request, answers it with a grant and
/// closes the stream.
pub open spec fn grants(local_id: u32, said: Seq<Packet>) -> bool {
    &&& said.len() > 0
    &&& said[0].command == MessageCommand::Okay
    &&& said[0].arg1 == local_id
    &&& match collected(seq![], said.drop_first()) {
        Some(answer) => granted(answer),
        None => false,
    }
}

/// A request whose answer is collected succeeds exactly where the device grants it.
pub proof fn requests_succeed_where_granted(service: DispatchedService, said: Seq<Packet>)
    ensures
        answered(Progress { service, stage: Stage::Opening(Task::Collect) }, said) == Some(
            Ok::<(), RustADBError<Seq<char>>>(()),
        ) <==> grants(service.local_id, said),
{
    if said.len() > 0 && said[0].command == MessageCommand::Okay && said[0].arg1
        == service.local_id {
        let open = DispatchedService { local_id: service.local_id, remote_id: said[0].arg0 };
        lemma_collected(open, seq![], said.drop_first());
    }
}

/// A collected answer decides the outcome.
proof fn lemma_collected(service: DispatchedService, response: Seq<u8>, said: Seq<Packet>)
    ensures
        answered(Progress { service, stage: Stage::Collecting(response) }, said) == Some(
            Ok::<(), RustADBError<Seq<char>>>(()),
        ) <==> match collected(response, said) {
            Some(answer) => granted(answer),
            None => false,
        },
    decreases said.len(),
{
    if said.len() > 0 {
        match said[0].command {
            MessageCommand::Write => lemma_collected(
                service,
                response + said[0].payload,
                said.drop_first(),
            ),
            MessageCommand::Okay => lemma_collected(service, response, said.drop_first()),
            _ => {},
        }
    }
}

/// The bytes that actions put out.
pub open spec fn put_out(actions: Seq<Action<Packet, Seq<u8>>>) -> Seq<u8>
    decreases actions.len(),
{
    if actions.len() == 0 {
        seq![]
    } else {
        put_out(actions.drop_last()) + match actions.last() {
            Action::Output(bytes) => bytes,
            _ => seq![],
        }
    }
}

/// What a list of writes of the device makes of an operation: its progress, the
/// bytes that are put out, and the outcome.
pub open spec fn driven(progress: Progress, arg0: u32, payloads: Seq<Seq<u8>>) -> (
    Progress,
    Seq<u8>,
    Outcome,
)
    decreases payloads.len(),
{
    if payloads.len() == 0 {
        (progress, seq![], None)
    } else {
        let (next, answer) = step(
            progress,
            packet(
                MessageCommand::Write,
                arg0,
                progress.service.local_id,
                payloads[0],
            ),
        );
        if answer.outcome is Some {
            (next, put_out(answer.actions), answer.outcome)
        } else {
            let rest = driven(next, arg0, payloads.drop_first());
            (rest.0, put_out(answer.actions) + rest.1, rest.2)
        }
    }
}

/// The bytes that the actions of a step put out.
proof fn lemma_put_out(service: DispatchedService, output: Seq<u8>, closing: Action<Packet, Seq<u8>>)
    requires
        !(closing is Output),
    ensures
        put_out(seq![Action::Send(okay(service))] + puts(output)) == output,
        put_out((seq![Action::Send(okay(service))] + puts(output)).push(closing)) == output,
{
    let first: Seq<Action<Packet, Seq<u8>>> = seq![Action::Send(okay(service))];
    let begun = first + puts(output);
    assert(first.drop_last() =~= seq![]);
    assert(put_out(first) =~= seq![]) by {
        assert(put_out(first.drop_last()) =~= seq![]);
    }
    if output.len() > 0 {
        assert(begun.drop_last() =~= first);
        assert(put_out(begun) =~= output);
    } else {
        assert(begun =~= first);
        assert(output =~= seq![]);
    }
    let all = begun.push(closing);
    assert(all.drop_last() =~= begun);
    assert(put_out(all) =~= output);
}

/// The output of a command and its outcome depend on the bytes of its stream
/// alone, not on the packets that carried them.
pub proof fn commands_ignore_packet_boundaries(
    service: DispatchedService,
    buffered: Seq<u8>,
    errors: Seq<u8>,
    arg0: u32,
    payloads: Seq<Seq<u8>>,
)
    requires
        shell_run(buffered, seq![], errors) == (crate::service::ShellRun {
            output: seq![],
            errors,
            rest: buffered,
            end: None,
        }),
    ensures
        ({
            let progress = Progress { service, stage: Stage::Shell { buffered, errors } };
            let many = driven(progress, arg0, payloads);
            let run = shell_run(buffered + payloads.flatten(), seq![], errors);
            &&& many.1 == run.output
            &&& many.2 == match run.end {
                None => None,
                Some(ShellEnd::Exit(data)) => exit_outcome(data, run.errors),
                Some(ShellEnd::Oversized) => fails("oversized shell packet"@),
                Some(ShellEnd::Invalid) => fails("invalid shell packet"@),
            }
        }),
    decreases payloads.len(),
{
    if payloads.len() == 0 {
        assert(payloads.flatten() =~= seq![]);
        assert(buffered + payloads.flatten() =~= buffered);
    } else {
        let head = payloads[0];
        let tail = payloads.drop_first();
        let first = buffered + head;
        let half = shell_run(first, seq![], errors);
        assert(payloads.flatten() =~= head + tail.flatten());
        assert(buffered + payloads.flatten() =~= first + tail.flatten());
        lemma_put_out(service, half.output, Action::Send(close(service)));
        if half.end is Some {
            crate::service::shell_run_stops_at_its_end(first, tail.flatten(), seq![], errors);
        } else {
            crate::service::shell_run_ignores_packet_boundaries(
                first,
                tail.flatten(),
                seq![],
                errors,
            );
            crate::service::lemma_shell_output(
                half.rest + tail.flatten(),
                half.output,
                half.errors,
            );
            crate::service::shell_run_ignores_packet_boundaries(first, seq![], seq![], errors);
            assert(first + Seq::<u8>::empty() =~= first);
            assert(half.rest + Seq::<u8>::empty() =~= half.rest);
            crate::service::lemma_shell_output(half.rest, half.output, half.errors);
            let again = shell_run(half.rest, seq![], half.errors);
            assert(half.output + again.output == half.output);
            assert(again.output.len() == 0);
            assert(again.output =~= seq![]);
            commands_ignore_packet_boundaries(service, half.rest, half.errors, arg0, tail);
        }
    }
}

/// The file that a download gives and its outcome depend on the bytes of its
/// stream alone, not on the packets that carried them.
pub proof fn downloads_ignore_packet_boundaries(
    service: DispatchedService,
    buffered: Seq<u8>,
    arg0: u32,
    payloads: Seq<Seq<u8>>,
)
    requires
        sync_run(buffered, seq![]) == (crate::service::SyncRun {
            output: seq![],
            rest: buffered,
            end: None,
        }),
    ensures
        ({
            let progress = Progress { service, stage: Stage::Pulling { buffered } };
            let many = driven(progress, arg0, payloads);
            let run = sync_run(buffered + payloads.flatten(), seq![]);
            &&& many.1 == run.output
            &&& many.2 == match run.end {
                None => None,
                Some(SyncEnd::Done) => Some(Ok(())),
                Some(SyncEnd::Fail(data)) => fails(lossy(data)),
                Some(SyncEnd::Invalid) => fails("invalid sync download packet"@),
            }
        }),
    decreases payloads.len(),
{
    if payloads.len() == 0 {
        assert(payloads.flatten() =~= seq![]);
        assert(buffered + payloads.flatten() =~= buffered);
    } else {
        let head = payloads[0];
        let tail = payloads.drop_first();
        let first = buffered + head;
        let half = sync_run(first, seq![]);
        assert(payloads.flatten() =~= head + tail.flatten());
        assert(buffered + payloads.flatten() =~= first + tail.flatten());
        lemma_put_out(service, half.output, Action::TrySend(close(service)));
        if half.end is Some {
            crate::service::sync_run_stops_at_its_end(first, tail.flatten(), seq![]);
        } else {
            crate::service::sync_run_ignores_packet_boundaries(first, tail.flatten(), seq![]);
            crate::service::lemma_sync_output(half.rest + tail.flatten(), half.output);
            crate::service::sync_run_ignores_packet_boundaries(first, seq![], seq![]);
            assert(first + Seq::<u8>::empty() =~= first);
            assert(half.rest + Seq::<u8>::empty() =~= half.rest);
            crate::service::lemma_sync_output(half.rest, half.output);
            let again = sync_run(half.rest, seq![]);
            assert(half.output + again.output == half.output);
            assert(again.output.len() == 0);
            assert(again.output =~= seq![]);
            downloads_ignore_packet_boundaries(service, half.rest, arg0, tail);
        }
    }
}

/// A shell command succeeds where its exit status is zero, and nowhere else: the output
/// is what it wrote, and the error tells the status and the diagnostics. It does not
/// matter how the stream came in packets.
pub proof fn commands_succeed_with_status_zero(
    service: DispatchedService,
    arg0: u32,
    payloads: Seq<Seq<u8>>,
    writes: ShellWrites,
    status: Seq<u8>,
)
    requires
        payloads.flatten() == shell_writes(writes) + shell_piece(3, status),
        forall|i: int| 0 <= i < writes.len() ==> (#[trigger] writes[i]).1.len() <= 1048576,
        written(writes, true).len() <= 65536,
        status.len() <= 1048576,
    ensures
        ({
            let fresh = Stage::Shell { buffered: seq![], errors: seq![] };
            let run = driven(Progress { service, stage: fresh }, arg0, payloads);
            let told = lossy(written(writes, true));
            &&& run.1 == written(writes, false)
            &&& run.2 is Some
            &&& run.2 == Some(Ok::<(), RustADBError<Seq<char>>>(())) <==> status.len() > 0
                && status[0] == 0
            &&& status.len() > 0 && status[0] != 0 ==> run.2 == Some(
                Err::<(), RustADBError<Seq<char>>>(
                    RustADBError::ADBRequestFailed(
                        "remote command exited "@ + ("Some("@ + decimal(status[0] as nat) + ")"@)
                            + ": "@ + told,
                    ),
                ),
            )
            &&& status.len() == 0 ==> run.2 == Some(
                Err::<(), RustADBError<Seq<char>>>(
                    RustADBError::ADBRequestFailed(
                        "remote command exited "@ + "None"@ + ": "@ + told,
                    ),
                ),
            )
        }),
{
    commands_ignore_packet_boundaries(service, seq![], seq![], arg0, payloads);
    let stream = shell_writes(writes) + shell_piece(3, status);
    assert(Seq::<u8>::empty() + payloads.flatten() =~= stream);
    output_and_diagnostics_are_told_apart(writes, shell_piece(3, status), seq![], seq![]);
    let output = Seq::<u8>::empty() + written(writes, false);
    let errors = Seq::<u8>::empty() + written(writes, true);
    assert(output =~= written(writes, false));
    assert(errors =~= written(writes, true));
    assert(shell_piece(3, status) + Seq::<u8>::empty() =~= shell_piece(3, status));
    shell_streams_end(3, status, seq![], seq![], output, errors);
}

/// A download puts out the file that the device sends, and ends well exactly where the
/// device says that it is done. It does not matter how the stream came in packets.
pub proof fn downloads_put_out_the_file(
    service: DispatchedService,
    arg0: u32,
    payloads: Seq<Seq<u8>>,
    pieces: Seq<Seq<u8>>,
    reason: Option<Seq<u8>>,
)
    requires
        payloads.flatten() == data_packets(pieces) + match reason {
            None => sync_packet(encode_utf8("DONE"@), seq![]),
            Some(reason) => sync_packet(encode_utf8("FAIL"@), reason),
        },
        forall|i: int| 0 <= i < pieces.len() ==> (#[trigger] pieces[i]).len() <= 65536,
        reason is Some ==> reason->0.len() <= 65536,
    ensures
        ({
            let fresh = Stage::Pulling { buffered: seq![] };
            let run = driven(Progress { service, stage: fresh }, arg0, payloads);
            &&& run.1 == pieces.flatten()
            &&& run.2 == match reason {
                None => Some(Ok::<(), RustADBError<Seq<char>>>(())),
                Some(reason) => Some(Err(RustADBError::ADBRequestFailed(lossy(reason)))),
            }
        }),
{
    downloads_ignore_packet_boundaries(service, seq![], arg0, payloads);
    sync_words_are_spelled();
    let word = match reason {
        None => encode_utf8("DONE"@),
        Some(_) => encode_utf8("FAIL"@),
    };
    let data = match reason {
        None => seq![],
        Some(reason) => reason,
    };
    let tail = sync_packet(word, data);
    assert(Seq::<u8>::empty() + payloads.flatten() =~= data_packets(pieces) + tail);
    pieces_of_a_file_are_joined(pieces, tail, seq![]);
    assert(Seq::<u8>::empty() + pieces.flatten() =~= pieces.flatten());
    assert(tail + Seq::<u8>::empty() =~= tail);
    downloads_end(word, data, seq![], pieces.flatten());
    assert(DONE@ != FAIL@) by {
        assert(DONE@[0] != FAIL@[0]);
    }
}

/// A service is open once the device says so for its own identifier; the identifier of
/// the device is the other one of that answer. Any other answer ends it.
pub proof fn services_open_on_their_own_answer(
    service: DispatchedService,
    task: Task<Seq<char>>,
    said: Packet,
)
    ensures
        ({
            let (next, answer) = step(Progress { service, stage: Stage::Opening(task) }, said);
            if said.command == MessageCommand::Okay && said.arg1 == service.local_id {
                &&& next.service.local_id == service.local_id
                &&& next.service.remote_id == said.arg0
                &&& task is Shell ==> next.stage == (Stage::<Seq<char>, Seq<u8>>::Shell {
                    buffered: seq![],
                    errors: seq![],
                }) && answer.outcome is None
                &&& task is Drain ==> next.stage is Draining && answer.outcome is None
                &&& task is Collect ==> next.stage == Stage::<Seq<char>, Seq<u8>>::Collecting(
                    seq![],
                ) && answer.outcome is None
            } else {
                &&& next.stage is Ended
                &&& answer.outcome is Some
                &&& answer.outcome->0 is Err
                &&& answer.actions.len() == 0
            }
        }),
{
}

/// A transfer names its file first: a download its path, an upload its path and the mode
/// that the file gets.
pub proof fn transfers_name_their_file(service: DispatchedService, path: Seq<char>)
    requires
        encode_utf8(path).len() <= 0x7fff_ffff,
        encode_utf8(path + ",0777"@).len() <= 0x7fff_ffff,
    ensures
        ({
            let down = after_open(service, Task::Pull(path));
            let up = after_open(service, Task::Push(path));
            let asked = sync_packet(encode_utf8("RECV"@), encode_utf8(path));
            let offered = sync_packet(encode_utf8("SEND"@), encode_utf8(path + ",0777"@));
            &&& down.1.actions == seq![Action::<Packet, Seq<u8>>::Send(carries(service, asked))]
            &&& up.1.actions == seq![Action::<Packet, Seq<u8>>::Send(carries(service, offered))]
            &&& down.1.outcome is None
            &&& up.1.outcome is None
            &&& down.0.stage is PullRequested
            &&& up.0.stage == (Stage::<Seq<char>, Seq<u8>>::PushSending { finishing: false })
        }),
{
    sync_words_are_spelled();
}

/// A piece of a file is sent as it is, and the last one by the word that the file is
/// done.
pub proof fn pieces_are_sent_as_they_are(service: DispatchedService, piece: Seq<u8>)
    requires
        piece.len() <= 65535,
    ensures
        ({
            let (next, answer) = input_step(service, piece);
            let request = if piece.len() > 0 {
                sync_packet(encode_utf8("DATA"@), piece)
            } else {
                sync_packet(encode_utf8("DONE"@), seq![])
            };
            &&& answer.outcome is None
            &&& answer.actions == seq![Action::<Packet, Seq<u8>>::Send(carries(service, request))]
            &&& next.stage == (Stage::<Seq<char>, Seq<u8>>::PushSending {
                finishing: piece.len() == 0,
            })
        }),
{
    sync_words_are_spelled();
}

/// An answer grants what was asked where it begins with the letters of the word for yes.
pub proof fn only_yes_grants(answer: Seq<u8>)
    ensures
        granted(answer) <==> answer.len() >= 4 && answer[0] == 0x4f && answer[1] == 0x4b
            && answer[2] == 0x41 && answer[3] == 0x59,
{
    if answer.len() >= 4 && answer[0] == 0x4f && answer[1] == 0x4b && answer[2] == 0x41
        && answer[3] == 0x59 {
        assert(answer.take(4) =~= OKAY@);
    }
    if granted(answer) {
        assert(answer.take(4)[0] == answer[0]);
        assert(answer.take(4)[1] == answer[1]);
        assert(answer.take(4)[2] == answer[2]);
        assert(answer.take(4)[3] == answer[3]);
    }
}

/// Whether a packet that a device sends in the course of a service is acknowledged:
/// the acknowledgement names this end first.
pub open spec fn acknowledged(service: DispatchedService, answer: Answer) -> bool {
    exists|i: int|
        0 <= i < answer.actions.len() && match #[trigger] answer.actions[i] {
            Action::Send(sent) => {
                &&& sent.command == MessageCommand::Okay
                &&& sent.arg0 == service.local_id
                &&& sent.arg1 == service.remote_id
                &&& sent.payload.len() == 0
            },
            _ => false,
        }
}

/// Whatever the device writes in the course of a service is acknowledged.
pub proof fn writes_are_acknowledged(progress: Progress, said: Packet)
    requires
        said.command == MessageCommand::Write,
        progress.stage is Shell || progress.stage is Pulling || progress.stage is Draining
            || progress.stage is Collecting || progress.stage is PushResult,
    ensures
        acknowledged(progress.service, step(progress, said).1),
{
    let answer = step(progress, said).1;
    if progress.stage is Draining {
        let last = answer.actions.len() - 1;
        assert(answer.actions[last] == Action::<Packet, Seq<u8>>::Send(okay(progress.service)));
    } else {
        assert(answer.actions[0] == Action::<Packet, Seq<u8>>::Send(okay(progress.service)));
    }
}

/// The raw output of a command is put out as it comes, until the device closes the
/// stream; then the command has succeeded, and the closing is answered.
pub proof fn raw_output_is_put_out(
    service: DispatchedService,
    arg0: u32,
    payloads: Seq<Seq<u8>>,
    said: Packet,
)
    ensures
        ({
            let draining = Progress { service, stage: Stage::Draining };
            let run = driven(draining, arg0, payloads);
            let (ended, last) = step(draining, said);
            &&& run.0 == draining
            &&& run.1 == payloads.flatten()
            &&& run.2 is None
            &&& said.command == MessageCommand::Clse ==> {
                &&& last.outcome == Some(Ok::<(), RustADBError<Seq<char>>>(()))
                &&& last.actions == seq![Action::<Packet, Seq<u8>>::Send(close(service))]
                &&& ended.stage is Ended
            }
        }),
    decreases payloads.len(),
{
    let draining = Progress { service, stage: Stage::Draining };
    if payloads.len() > 0 {
        let first = packet(MessageCommand::Write, arg0, service.local_id, payloads[0]);
        let actions = step(draining, first).1.actions;
        assert(actions == puts(payloads[0]).push(Action::Send(okay(service))));
        assert(actions.drop_last() =~= puts(payloads[0]));
        assert(put_out(actions) =~= put_out(puts(payloads[0])));
        if payloads[0].len() > 0 {
            let none = Seq::<Action<Packet, Seq<u8>>>::empty();
            assert(puts(payloads[0]).drop_last() =~= none);
            assert(put_out(none) =~= seq![]);
            assert(put_out(puts(payloads[0])) =~= payloads[0]);
        } else {
            assert(put_out(puts(payloads[0])) =~= payloads[0]);
        }
        raw_output_is_put_out(service, arg0, payloads.drop_first(), said);
        assert(payloads[0] + payloads.drop_first().flatten() =~= payloads.flatten());
    } else {
        assert(payloads.flatten() =~= seq![]);
    }
}

/// A stream that the device closes before a command or a transfer is over is a failure,
/// and so is any answer out of turn.
pub proof fn early_ends_are_failures(progress: Progress, said: Packet)
    requires
        progress.stage is Shell || progress.stage is Pulling || progress.stage is PullRequested
            || progress.stage is PushSending || progress.stage is PushResult,
        said.command != MessageCommand::Write,
        said.command != MessageCommand::Okay,
    ensures
        ({
            let (next, answer) = step(progress, said);
            &&& answer.outcome is Some
            &&& answer.outcome->0 is Err
            &&& next.stage is Ended || next.stage is Pulled
        }),
{
}

/// An operation that cannot go on ends with the reason. A download closes its stream
/// first; the others send nothing.
pub proof fn failures_end_with_their_reason(progress: Progress, error: RustADBError<Seq<char>>)
    ensures
        ({
            let (next, answer) = failed_step(progress, error);
            &&& answer.outcome == Some(Err::<(), RustADBError<Seq<char>>>(error))
            &&& next.stage is Ended
            &&& next.service == progress.service
            &&& progress.stage is Pulling || progress.stage is Pulled ==> answer.actions.len() == 1
                && answer.actions[0] == Action::<Packet, Seq<u8>>::TrySend(close(progress.service))
            &&& !(progress.stage is Pulling) && !(progress.stage is Pulled)
                ==> answer.actions.len() == 0
        }),
{
}

/// What ends a service before its time is told: a stream that the device closes, a
/// packet that has no place in it, and a write that is not acknowledged.
pub proof fn early_ends_are_told(
    service: DispatchedService,
    stage: Stage<Seq<char>, Seq<u8>>,
    said: Packet,
)
    requires
        said.command != MessageCommand::Write,
        said.command != MessageCommand::Okay,
    ensures
        ({
            let answer = step(Progress { service, stage }, said).1;
            let closed = said.command == MessageCommand::Clse;
            &&& stage is Shell || stage is Pulling ==> answer.outcome == Some(
                Err::<(), RustADBError<Seq<char>>>(
                    RustADBError::ADBRequestFailed(
                        if closed {
                            "device closed service before completion"@
                        } else {
                            "unexpected service packet"@
                        },
                    ),
                ),
            )
            &&& stage is PullRequested || stage is PushSending ==> answer.outcome == Some(
                Err::<(), RustADBError<Seq<char>>>(
                    RustADBError::ADBRequestFailed("ADB service did not acknowledge write"@),
                ),
            )
            &&& stage is PushResult ==> answer.outcome == Some(
                Err::<(), RustADBError<Seq<char>>>(
                    RustADBError::ADBRequestFailed("sync push did not return a result packet"@),
                ),
            )
            &&& stage is Opening ==> answer.outcome == Some(
                Err::<(), RustADBError<Seq<char>>>(
                    RustADBError::ADBRequestFailed(
                        "open dispatched session failed: expected OKAY for "@ + decimal(
                            service.local_id as nat,
                        ),
                    ),
                ),
            )
            &&& !closed && (stage is Draining || stage is Collecting) ==> answer.outcome == Some(
                Err::<(), RustADBError<Seq<char>>>(
                    RustADBError::ADBRequestFailed(
                        "unexpected "@ + command_name(said.command)
                            + " in dispatched shell session"@,
                    ),
                ),
            )
            &&& closed && stage is Draining ==> answer.outcome == Some(
                Ok::<(), RustADBError<Seq<char>>>(()),
            )
        }),
{
}

/// A file that the device does not take, and a route that it does not grant, fail with
/// what it said.
pub proof fn refusals_are_told(service: DispatchedService, response: Seq<u8>, said: Packet)
    requires
        said.command == MessageCommand::Write,
        !granted(said.payload),
        !granted(response),
    ensures
        ({
            let closing = bare(MessageCommand::Clse, 0, 0);
            let sent = Progress { service, stage: Stage::PushResult };
            let asked = Progress { service, stage: Stage::Collecting(response) };
            &&& step(sent, said).1.outcome == Some(
                Err::<(), RustADBError<Seq<char>>>(
                    RustADBError::ADBRequestFailed("sync push failed: "@ + lossy(said.payload)),
                ),
            )
            &&& step(asked, closing).1.outcome == Some(
                Err::<(), RustADBError<Seq<char>>>(
                    RustADBError::ADBRequestFailed("reverse failed: "@ + lossy(response)),
                ),
            )
        }),
{
}

} // verus!
