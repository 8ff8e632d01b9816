//! The framing of the local control socket.
//!
//! A request is a length and a text. The answer to most requests is a status
//! line and a text. Binary output follows its status line in frames, of which an
//! empty one is the last, and a second status line ends it. Binary input is
//! framed in the same way.

use crate::bytes::{be32, be32_value, copy_bytes, lemma_be32, push_be32, push_bytes, read_be32};
use crate::text::{
    append, complains, copy_text, decode, prefixes_are_taken_off, same_bytes, strip_prefix, trim,
    trimmed, after_prefix, chars_of, string_of,
};
use vstd::prelude::*;
use vstd::utf8::*;

verus! {

/// The size of the largest frame that is accepted.
pub const MAX_FRAME: usize = 1048576;

/// The size of the frames that output is cut into.
pub const FRAME_CHUNK: usize = 65536;

/// The status line of success.
pub const STATUS_OK: [u8; 3] = [0x4f, 0x4b, 0x0a];

/// What an error of the standard library says of a stream that ends too soon.
pub open spec fn short_stream() -> Seq<char> {
    "failed to fill whole buffer"@
}

/// What an error of the standard library says of a stream that is not text.
pub open spec fn not_text() -> Seq<char> {
    "stream did not contain valid UTF-8"@
}

/// The bytes of a request.
pub open spec fn request_frame(request: Seq<char>) -> Seq<u8> {
    be32(encode_utf8(request).len() as u32) + encode_utf8(request)
}

/// Frames a request. One whose length does not fit is refused.
pub fn frame_request(request: &str) -> (bytes: Result<Vec<u8>, String>)
    ensures
        if encode_utf8(request@).len() <= u32::MAX {
            bytes is Ok && bytes->Ok_0@ == request_frame(request@)
        } else {
            complains(bytes, "out of range integral type conversion attempted"@)
        },
{
    let text: &[u8] = request.as_bytes();
    if text.len() as u64 > u32::MAX as u64 {
        return Err(copy_text("out of range integral type conversion attempted"));
    }
    let mut bytes: Vec<u8> = Vec::new();
    push_be32(&mut bytes, text.len() as u32);
    push_bytes(&mut bytes, text);
    assert(bytes@ =~= request_frame(request@));
    Ok(bytes)
}

/// One frame: the length of the data and the data.
pub open spec fn frame(data: Seq<u8>) -> Seq<u8> {
    be32(data.len() as u32) + data
}

/// Data cut into frames.
pub open spec fn framed(data: Seq<u8>) -> Seq<u8>
    decreases data.len(),
{
    if data.len() == 0 {
        seq![]
    } else if data.len() <= FRAME_CHUNK {
        frame(data)
    } else {
        frame(data.take(FRAME_CHUNK as int)) + framed(data.skip(FRAME_CHUNK as int))
    }
}

/// Cuts data into frames. Empty data gives no frame, since an empty frame ends
/// the output.
pub fn write_frames(data: &[u8]) -> (bytes: Vec<u8>)
    ensures
        bytes@ == framed(data@),
{
    let mut bytes: Vec<u8> = Vec::new();
    let mut at: usize = 0;
    assert(data@.skip(0) =~= data@);
    while at < data.len()
        invariant
            at <= data@.len(),
            bytes@ + framed(data@.skip(at as int)) =~= framed(data@),
        decreases data@.len() - at,
    {
        let ghost here = data@.skip(at as int);
        let ghost before = bytes@;
        let size: usize = if data.len() - at < FRAME_CHUNK {
            data.len() - at
        } else {
            FRAME_CHUNK
        };
        let chunk: Vec<u8> = copy_bytes(data, at, at + size);
        push_be32(&mut bytes, size as u32);
        push_bytes(&mut bytes, &chunk);
        proof {
            assert(chunk@ =~= here.take(size as int));
            assert(bytes@ =~= before + frame(chunk@));
            assert(data@.skip(at + size) =~= here.skip(size as int));
            if here.len() <= FRAME_CHUNK {
                assert(chunk@ =~= here);
                assert(framed(here.skip(size as int)) =~= seq![]);
            }
        }
        at = at + size;
    }
    bytes
}

/// What the last frame of an output is followed by: its status line.
pub open spec fn stream_tail(error: Option<Seq<char>>) -> Seq<u8> {
    be32(0) + match error {
        None => STATUS_OK@,
        Some(error) => error_line(error),
    }
}

/// The status line of a failure.
pub open spec fn error_line(error: Seq<char>) -> Seq<u8> {
    encode_utf8("ERR\t"@ + error + "\n"@)
}

/// Builds the status line of a failure.
pub fn write_error(error: &str) -> (bytes: Vec<u8>)
    ensures
        bytes@ == error_line(error@),
{
    let mut text: String = copy_text("ERR\t");
    append(&mut text, error);
    append(&mut text, "\n");
    let mut bytes: Vec<u8> = Vec::new();
    push_bytes(&mut bytes, text.as_str().as_bytes());
    assert(bytes@ =~= error_line(error@));
    bytes
}

/// The bytes that begin a streamed answer.
pub fn begin_stream() -> (bytes: Vec<u8>)
    ensures
        bytes@ == STATUS_OK@,
{
    let mut bytes: Vec<u8> = Vec::new();
    push_bytes(&mut bytes, &STATUS_OK);
    assert(bytes@ =~= STATUS_OK@);
    bytes
}

/// The bytes that end a streamed answer.
pub fn end_stream(outcome: &Result<(), String>) -> (bytes: Vec<u8>)
    ensures
        bytes@ == stream_tail(
            match outcome {
                Ok(()) => None,
                Err(error) => Some(error@),
            },
        ),
{
    let mut bytes: Vec<u8> = Vec::new();
    push_be32(&mut bytes, 0);
    match outcome {
        Ok(()) => push_bytes(&mut bytes, &STATUS_OK),
        Err(error) => {
            let line: Vec<u8> = write_error(error);
            push_bytes(&mut bytes, &line);
        },
    }
    assert(bytes@ =~= stream_tail(
        match outcome {
            Ok(()) => None,
            Err(error) => Some(error@),
        },
    ));
    bytes
}

/// The bytes that end the answer to a streamed input.
pub fn end_input(outcome: &Result<(), String>) -> (bytes: Vec<u8>)
    ensures
        bytes@ == match outcome {
            Ok(()) => STATUS_OK@,
            Err(error) => error_line(error@),
        },
{
    match outcome {
        Ok(()) => begin_stream(),
        Err(error) => write_error(error),
    }
}

/// How far the decoding of a streamed answer has come.
#[derive(Debug)]
pub enum Phase<T> {
    /// The status line is not complete.
    Status,
    /// Frames come.
    Frames,
    /// The last frame has come; the final status is read.
    Terminal,
    /// The answer is a failure, or broken, for this reason.
    Failed(T),
}

/// What a streamed answer has given so far.
#[verifier::ext_equal]
pub ghost struct Decoded {
    /// How far it has come.
    pub phase: Phase<Seq<char>>,
    /// The output.
    pub output: Seq<u8>,
    /// The bytes that are not decoded yet.
    pub rest: Seq<u8>,
}

/// The length of the first line of a byte string, its end included, or nothing
/// where no line ends.
pub open spec fn line_length(bytes: Seq<u8>) -> Option<nat>
    decreases bytes.len(),
{
    if bytes.len() == 0 {
        None
    } else if bytes[0] == 0x0a {
        Some(1)
    } else {
        match line_length(bytes.drop_first()) {
            Some(length) => Some(length + 1),
            None => None,
        }
    }
}

/// The text of a status that is not success.
pub open spec fn status_text(bytes: Seq<u8>) -> Seq<char> {
    if valid_utf8(bytes) {
        decode_utf8(bytes)
    } else {
        not_text()
    }
}

/// What the frames of a streamed answer give.
pub open spec fn decoded_frames(stream: Seq<u8>, output: Seq<u8>) -> Decoded
    decreases stream.len(),
{
    let waiting = Decoded { phase: Phase::Frames, output, rest: stream };
    if stream.len() < 4 {
        waiting
    } else {
        let length = be32_value(stream);
        if length == 0 {
            Decoded { phase: Phase::Terminal, output, rest: stream.skip(4) }
        } else if length > MAX_FRAME {
            Decoded {
                phase: Phase::Failed("oversized output frame"@),
                output,
                rest: stream.skip(4),
            }
        } else if stream.len() < 4 + length {
            waiting
        } else {
            decoded_frames(stream.skip(4 + length), output + stream.subrange(4, 4 + length))
        }
    }
}

/// What the bytes of a streamed answer give.
pub open spec fn decoded(phase: Phase<Seq<char>>, stream: Seq<u8>) -> Decoded {
    match phase {
        Phase::Status => match line_length(stream) {
            None => Decoded { phase, output: seq![], rest: stream },
            Some(length) => {
                let line = stream.take(length as int);
                if line == STATUS_OK@ {
                    decoded_frames(stream.skip(length as int), seq![])
                } else {
                    Decoded {
                        phase: Phase::Failed(status_text(line)),
                        output: seq![],
                        rest: stream.skip(length as int),
                    }
                }
            },
        },
        Phase::Frames => decoded_frames(stream, seq![]),
        _ => Decoded { phase, output: seq![], rest: stream },
    }
}

/// The outcome of a streamed answer that has ended.
pub open spec fn stream_outcome(ended: Decoded) -> Option<Seq<char>> {
    match ended.phase {
        Phase::Failed(reason) => Some(reason),
        Phase::Status => Some(status_text(ended.rest)),
        Phase::Frames => Some(short_stream()),
        Phase::Terminal => if ended.rest == STATUS_OK@ {
            None
        } else {
            Some(status_text(ended.rest))
        },
    }
}

/// What a phase says.
pub open spec fn phase_view(phase: Phase<String>) -> Phase<Seq<char>> {
    match phase {
        Phase::Status => Phase::Status,
        Phase::Frames => Phase::Frames,
        Phase::Terminal => Phase::Terminal,
        Phase::Failed(reason) => Phase::Failed(reason@),
    }
}

/// Finds the end of the first line.
fn find_line(bytes: &[u8]) -> (length: Option<usize>)
    ensures
        match length {
            Some(length) => line_length(bytes@) == Some(length as nat) && length <= bytes@.len(),
            None => line_length(bytes@) is None,
        },
{
    let mut i: usize = 0;
    assert(bytes@.skip(0) =~= bytes@);
    while i < bytes.len()
        invariant
            i <= bytes@.len(),
            line_length(bytes@) == match line_length(bytes@.skip(i as int)) {
                Some(length) => Some(length + i as nat),
                None => None,
            },
        decreases bytes@.len() - i,
    {
        assert(bytes@.skip(i as int).drop_first() =~= bytes@.skip(i + 1));
        if bytes[i] == 0x0a {
            return Some(i + 1);
        }
        i = i + 1;
    }
    None
}

/// The text of a status that is not success.
fn read_status(bytes: &[u8]) -> (text: String)
    ensures
        text@ == status_text(bytes@),
{
    match decode(bytes) {
        Ok(text) => text,
        Err(_) => copy_text("stream did not contain valid UTF-8"),
    }
}

/// Decodes a streamed answer as its bytes come in.
#[derive(Debug)]
pub struct StreamDecoder {
    phase: Phase<String>,
    rest: Vec<u8>,
}

impl StreamDecoder {
    /// How far the decoding has come.
    pub closed spec fn phase(&self) -> Phase<Seq<char>> {
        phase_view(self.phase)
    }

    /// The bytes that are not decoded yet.
    pub closed spec fn rest(&self) -> Seq<u8> {
        self.rest@
    }

    /// A decoder that has seen nothing.
    pub fn new() -> (decoder: StreamDecoder)
        ensures
            decoder.phase() == Phase::<Seq<char>>::Status,
            decoder.rest() == Seq::<u8>::empty(),
    {
        StreamDecoder { phase: Phase::Status, rest: Vec::new() }
    }

    /// Takes bytes in and gives the output that they complete.
    pub fn feed(&mut self, bytes: &[u8]) -> (output: Vec<u8>)
        ensures
            (Decoded { phase: final(self).phase(), output: output@, rest: final(self).rest() })
                == decoded(old(self).phase(), old(self).rest() + bytes@),
    {
        push_bytes(&mut self.rest, bytes);
        let ghost stream = self.rest@;
        let ghost phase = self.phase();
        if let Phase::Status = self.phase {
            match find_line(&self.rest) {
                None => {},
                Some(length) => {
                    let line: Vec<u8> = copy_bytes(&self.rest, 0, length);
                    assert(line@ =~= stream.take(length as int));
                    let rest: Vec<u8> = copy_bytes(&self.rest, length, self.rest.len());
                    assert(rest@ =~= stream.skip(length as int));
                    self.rest = rest;
                    if same_bytes(&line, &STATUS_OK) {
                        self.phase = Phase::Frames;
                    } else {
                        self.phase = Phase::Failed(read_status(&line));
                    }
                },
            }
        }
        let mut output: Vec<u8> = Vec::new();
        assert(output@ =~= seq![]);
        if let Phase::Frames = self.phase {
            let ghost frames = self.rest@;
            let mut at: usize = 0;
            assert(frames.skip(0) =~= frames);
            while self.rest.len() - at >= 4
                invariant
                    frames == self.rest@,
                    at <= frames.len(),
                    self.phase is Frames,
                    decoded(phase, stream) == decoded_frames(frames, seq![]),
                    decoded_frames(frames, seq![]) == decoded_frames(
                        frames.skip(at as int),
                        output@,
                    ),
                    decoded(phase, stream) == decoded(old(self).phase(), old(self).rest() + bytes@),
                decreases frames.len() - at,
            {
                let ghost here = frames.skip(at as int);
                let length: u32 = read_be32(&self.rest, at);
                if length == 0 || length > MAX_FRAME as u32 {
                    let rest: Vec<u8> = copy_bytes(&self.rest, at + 4, self.rest.len());
                    assert(rest@ =~= here.skip(4));
                    self.rest = rest;
                    self.phase = if length == 0 {
                        Phase::Terminal
                    } else {
                        Phase::Failed(copy_text("oversized output frame"))
                    };
                    return output;
                }
                let length: usize = length as usize;
                if self.rest.len() - at - 4 < length {
                    let rest: Vec<u8> = copy_bytes(&self.rest, at, self.rest.len());
                    assert(rest@ =~= here);
                    self.rest = rest;
                    return output;
                }
                let data: Vec<u8> = copy_bytes(&self.rest, at + 4, at + 4 + length);
                assert(data@ =~= here.subrange(4, 4 + length));
                push_bytes(&mut output, &data);
                at = at + 4 + length;
                assert(frames.skip(at as int) =~= here.skip(4 + length));
            }
            let rest: Vec<u8> = copy_bytes(&self.rest, at, self.rest.len());
            assert(rest@ =~= frames.skip(at as int));
            self.rest = rest;
        }
        output
    }

    /// The outcome, once the stream has ended.
    pub fn finish(&self) -> (outcome: Result<(), String>)
        ensures
            match stream_outcome(
                Decoded { phase: self.phase(), output: seq![], rest: self.rest() },
            ) {
                None => outcome is Ok,
                Some(reason) => complains(outcome, reason),
            },
    {
        match &self.phase {
            Phase::Failed(reason) => Err(copy_text(reason)),
            Phase::Status => Err(read_status(&self.rest)),
            Phase::Frames => Err(copy_text("failed to fill whole buffer")),
            Phase::Terminal => if same_bytes(&self.rest, &STATUS_OK) {
                Ok(())
            } else {
                Err(read_status(&self.rest))
            },
        }
    }
}

/// Decodes a whole streamed answer. The output that comes before a failure is
/// given too.
pub fn decode_stream(stream: &[u8], output: &mut Vec<u8>) -> (outcome: Result<(), String>)
    ensures
        final(output)@ == old(output)@ + decoded(Phase::Status, stream@).output,
        match stream_outcome(decoded(Phase::Status, stream@)) {
            None => outcome is Ok,
            Some(reason) => complains(outcome, reason),
        },
{
    let mut decoder = StreamDecoder::new();
    let more: Vec<u8> = decoder.feed(stream);
    assert(Seq::<u8>::empty() + stream@ =~= stream@);
    push_bytes(output, &more);
    decoder.finish()
}

/// The output of frames goes behind what came before.
proof fn lemma_frames_output(stream: Seq<u8>, output: Seq<u8>)
    ensures
        ({
            let fresh = decoded_frames(stream, seq![]);
            decoded_frames(stream, output) == (Decoded { output: output + fresh.output, ..fresh })
        }),
    decreases stream.len(),
{
    assert(output + Seq::<u8>::empty() =~= output);
    if stream.len() >= 4 {
        let length = be32_value(stream);
        if 0 < length <= MAX_FRAME && stream.len() >= 4 + length {
            let data = stream.subrange(4, 4 + length);
            let rest = stream.skip(4 + length);
            lemma_frames_output(rest, output + data);
            lemma_frames_output(rest, seq![] + data);
            let last = decoded_frames(rest, seq![]);
            assert(output + data + last.output =~= output + (seq![] + data + last.output));
        }
    }
}

/// A frame at the front gives its data.
proof fn lemma_frame(data: Seq<u8>, rest: Seq<u8>, output: Seq<u8>)
    requires
        0 < data.len() <= MAX_FRAME,
    ensures
        decoded_frames(frame(data) + rest, output) == decoded_frames(rest, output + data),
{
    let stream = frame(data) + rest;
    lemma_be32(data.len() as u32);
    assert(be32_value(stream) == be32_value(be32(data.len() as u32)));
    assert(stream.subrange(4, (4 + data.len()) as int) =~= data);
    assert(stream.skip((4 + data.len()) as int) =~= rest);
}

/// Data that was cut into frames comes back whole.
proof fn lemma_framed(data: Seq<u8>, rest: Seq<u8>, output: Seq<u8>)
    ensures
        decoded_frames(framed(data) + rest, output) == decoded_frames(rest, output + data),
    decreases data.len(),
{
    if data.len() == 0 {
        assert(framed(data) + rest =~= rest);
        assert(output + data =~= output);
    } else if data.len() <= FRAME_CHUNK {
        lemma_frame(data, rest, output);
    } else {
        let head = data.take(FRAME_CHUNK as int);
        let tail = data.skip(FRAME_CHUNK as int);
        assert(framed(data) + rest =~= frame(head) + (framed(tail) + rest));
        lemma_frame(head, framed(tail) + rest, output);
        lemma_framed(tail, rest, output + head);
        assert(output + head + tail =~= output + data);
    }
}

/// The writes of a stream, each cut into frames.
pub open spec fn framed_writes(writes: Seq<Seq<u8>>) -> Seq<u8>
    decreases writes.len(),
{
    if writes.len() == 0 {
        seq![]
    } else {
        framed(writes[0]) + framed_writes(writes.drop_first())
    }
}

/// Writes that were cut into frames come back joined.
proof fn lemma_framed_writes(writes: Seq<Seq<u8>>, rest: Seq<u8>, output: Seq<u8>)
    ensures
        decoded_frames(framed_writes(writes) + rest, output) == decoded_frames(
            rest,
            output + writes.flatten(),
        ),
    decreases writes.len(),
{
    if writes.len() == 0 {
        assert(framed_writes(writes) + rest =~= rest);
        assert(writes.flatten() =~= seq![]);
        assert(output + writes.flatten() =~= output);
    } else {
        let tail = writes.drop_first();
        assert(framed_writes(writes) + rest =~= framed(writes[0]) + (framed_writes(tail) + rest));
        lemma_framed(writes[0], framed_writes(tail) + rest, output);
        lemma_framed_writes(tail, rest, output + writes[0]);
        assert(writes.flatten() =~= writes[0] + tail.flatten());
        assert(output + writes[0] + tail.flatten() =~= output + writes.flatten());
    }
}

/// A streamed answer gives back every byte that was written, however it was cut
/// into writes, and the error that ended it.
pub proof fn streams_round_trip(writes: Seq<Seq<u8>>, error: Option<Seq<char>>)
    ensures
        ({
            let answer = decoded(
                Phase::Status,
                STATUS_OK@ + framed_writes(writes) + stream_tail(error),
            );
            &&& answer.output == writes.flatten()
            &&& stream_outcome(answer) == match error {
                None => None,
                Some(error) => Some("ERR\t"@ + error + "\n"@),
            }
        }),
{
    let tail = stream_tail(error);
    let stream = STATUS_OK@ + framed_writes(writes) + tail;
    assert(line_length(stream) == Some(3nat)) by {
        reveal_with_fuel(line_length, 4);
    }
    assert(stream.take(3) =~= STATUS_OK@);
    assert(stream.skip(3) =~= framed_writes(writes) + tail);
    lemma_framed_writes(writes, tail, seq![]);
    assert(Seq::<u8>::empty() + writes.flatten() =~= writes.flatten());
    lemma_be32(0);
    assert(be32_value(tail) == be32_value(be32(0)));
    match error {
        None => {
            assert(tail.skip(4) =~= STATUS_OK@);
        },
        Some(error) => {
            let line = "ERR\t"@ + error + "\n"@;
            assert(tail.skip(4) =~= error_line(error));
            encode_utf8_decode_utf8(line);
            encode_utf8_valid_utf8(line);
            assert(error_line(error) != STATUS_OK@) by {
                reveal_strlit("ERR\t");
                if error_line(error) == STATUS_OK@ {
                    reveal_strlit("OK\n");
                    is_ascii_chars_encode_utf8("OK\n"@);
                    assert(encode_utf8("OK\n"@) =~= STATUS_OK@);
                    encode_utf8_decode_utf8("OK\n"@);
                    assert(line == "OK\n"@);
                    assert(line[0] == 'E');
                }
            }
        },
    }
}

/// Behind the end of its frames a stream gives nothing.
proof fn lemma_frames_boundary(first: Seq<u8>, second: Seq<u8>, output: Seq<u8>)
    ensures
        !(decoded_frames(first, output).phase is Status),
        ({
            let half = decoded_frames(first, output);
            match half.phase {
                Phase::Frames => decoded_frames(first + second, output) == decoded_frames(
                    half.rest + second,
                    half.output,
                ),
                _ => decoded_frames(first + second, output) == (Decoded {
                    rest: half.rest + second,
                    ..half
                }),
            }
        }),
    decreases first.len(),
{
    let whole = first + second;
    if first.len() >= 4 {
        let length = be32_value(first);
        assert(be32_value(whole) == length);
        assert(whole.skip(4) =~= first.skip(4) + second);
        if 0 < length <= MAX_FRAME && first.len() >= 4 + length {
            assert(whole.subrange(4, 4 + length) =~= first.subrange(4, 4 + length));
            assert(whole.skip(4 + length) =~= first.skip(4 + length) + second);
            lemma_frames_boundary(
                first.skip(4 + length),
                second,
                output + first.subrange(4, 4 + length),
            );
        }
    }
}

/// A line that ends in the first part ends there in the whole.
proof fn lemma_line_boundary(first: Seq<u8>, second: Seq<u8>)
    requires
        line_length(first) is Some,
    ensures
        line_length(first + second) == line_length(first),
        line_length(first)->0 <= first.len(),
    decreases first.len(),
{
    if first[0] != 0x0a {
        assert((first + second).drop_first() =~= first.drop_first() + second);
        lemma_line_boundary(first.drop_first(), second);
    }
}

/// How a streamed answer is cut on its way does not matter: decoding its parts
/// one after the other gives the output and the outcome of the whole.
pub proof fn decoding_ignores_boundaries(
    phase: Phase<Seq<char>>,
    first: Seq<u8>,
    second: Seq<u8>,
)
    ensures
        ({
            let half = decoded(phase, first);
            let full = decoded(half.phase, half.rest + second);
            let whole = decoded(phase, first + second);
            &&& whole.output == half.output + full.output
            &&& whole.phase == full.phase
            &&& whole.rest == full.rest
        }),
{
    let half = decoded(phase, first);
    match phase {
        Phase::Status => match line_length(first) {
            None => {
                assert(half.rest + second =~= first + second);
                assert(half.output + decoded(half.phase, half.rest + second).output =~= decoded(
                    phase,
                    first + second,
                ).output);
            },
            Some(length) => {
                lemma_line_boundary(first, second);
                let n = length as int;
                assert((first + second).take(n) =~= first.take(n));
                assert((first + second).skip(n) =~= first.skip(n) + second);
                if first.take(n) == STATUS_OK@ {
                    lemma_frames_boundary(first.skip(n), second, seq![]);
                    lemma_frames_output(half.rest + second, half.output);
                    assert(half.output + Seq::<u8>::empty() =~= half.output);
                } else {
                    assert(half.output + decoded(half.phase, half.rest + second).output =~= seq![]);
                }
            },
        },
        Phase::Frames => {
            lemma_frames_boundary(first, second, seq![]);
            lemma_frames_output(half.rest + second, half.output);
            assert(half.output + Seq::<u8>::empty() =~= half.output);
        },
        _ => {
            assert(half.output + decoded(half.phase, half.rest + second).output =~= seq![]);
        },
    }
}

/// Reads framed input in pieces.
#[derive(Debug)]
pub struct FramedReader {
    frame: Vec<u8>,
    offset: usize,
    finished: bool,
}

impl FramedReader {
    /// The bytes of the current frame that were not handed out.
    pub closed spec fn left(&self) -> Seq<u8> {
        self.frame@.skip(self.offset as int)
    }

    /// Whether the last frame was read.
    pub closed spec fn finished(&self) -> bool {
        self.finished
    }

    /// The place in the frame is not behind its end.
    pub closed spec fn wf(&self) -> bool {
        self.offset <= self.frame@.len()
    }

    /// A reader that has read nothing.
    pub fn new() -> (reader: FramedReader)
        ensures
            reader.wf(),
            reader.left() == Seq::<u8>::empty(),
            !reader.finished(),
    {
        let reader = FramedReader { frame: Vec::new(), offset: 0, finished: false };
        assert(reader.left() =~= Seq::<u8>::empty());
        reader
    }

    /// Whether the next frame has to be read.
    pub fn needs_frame(&self) -> (needs: bool)
        requires
            self.wf(),
        ensures
            needs == (self.left().len() == 0 && !self.finished()),
    {
        self.offset == self.frame.len() && !self.finished
    }

    /// Takes the length of the next frame, and gives the number of bytes to read
    /// for it. An empty frame is the last.
    pub fn on_length(&mut self, length: u32) -> (size: Result<usize, String>)
        requires
            old(self).wf(),
        ensures
            final(self).wf(),
            final(self).left() == old(self).left(),
            if length > MAX_FRAME {
                &&& complains(size, "oversized input frame"@)
                &&& final(self).finished() == old(self).finished()
            } else {
                &&& size is Ok
                &&& size->Ok_0 == length
                &&& final(self).finished() == (old(self).finished() || length == 0)
            },
    {
        if length > MAX_FRAME as u32 {
            return Err(copy_text("oversized input frame"));
        }
        if length == 0 {
            self.finished = true;
        }
        Ok(length as usize)
    }

    /// Takes the bytes of a frame.
    pub fn on_frame(&mut self, frame: Vec<u8>)
        ensures
            final(self).wf(),
            final(self).left() == frame@,
            final(self).finished() == old(self).finished(),
    {
        self.frame = frame;
        self.offset = 0;
        assert(self.left() =~= frame@);
    }

    /// Hands out at most so many bytes of the current frame.
    pub fn take(&mut self, count: usize) -> (piece: Vec<u8>)
        requires
            old(self).wf(),
        ensures
            final(self).wf(),
            final(self).finished() == old(self).finished(),
            piece@ + final(self).left() == old(self).left(),
            piece@.len() == if old(self).left().len() < count {
                old(self).left().len()
            } else {
                count as nat
            },
    {
        let ghost before = self.left();
        let rest: usize = self.frame.len() - self.offset;
        let size: usize = if rest < count {
            rest
        } else {
            count
        };
        let piece: Vec<u8> = copy_bytes(&self.frame, self.offset, self.offset + size);
        self.offset = self.offset + size;
        assert(piece@ + self.left() =~= before);
        piece
    }
}

/// The data of framed input up to its last frame.
pub open spec fn input_data(stream: Seq<u8>) -> Result<Seq<u8>, Seq<char>>
    decreases stream.len(),
{
    if stream.len() < 4 {
        Err(short_stream())
    } else {
        let length = be32_value(stream);
        if length == 0 {
            Ok(seq![])
        } else if length > MAX_FRAME {
            Err("oversized input frame"@)
        } else if stream.len() < 4 + length {
            Err(short_stream())
        } else {
            match input_data(stream.skip(4 + length)) {
                Ok(rest) => Ok(stream.subrange(4, 4 + length) + rest),
                Err(error) => Err(error),
            }
        }
    }
}

/// Reads framed input to its end.
pub fn read_input(stream: &[u8]) -> (data: Result<Vec<u8>, String>)
    ensures
        match input_data(stream@) {
            Ok(bytes) => data is Ok && data->Ok_0@ == bytes,
            Err(error) => complains(data, error),
        },
{
    let mut reader = FramedReader::new();
    let mut data: Vec<u8> = Vec::new();
    let mut at: usize = 0;
    assert(stream@.skip(0) =~= stream@);
    loop
        invariant
            reader.wf(),
            !reader.finished(),
            at <= stream@.len(),
            match (input_data(stream@), input_data(stream@.skip(at as int))) {
                (Ok(all), Ok(rest)) => all == data@ + rest,
                (Err(all), Err(rest)) => all == rest,
                _ => false,
            },
        decreases stream@.len() - at,
    {
        let ghost here = stream@.skip(at as int);
        let ghost before = data@;
        if stream.len() - at < 4 {
            return Err(copy_text("failed to fill whole buffer"));
        }
        let length: u32 = read_be32(stream, at);
        let size: usize = match reader.on_length(length) {
            Ok(size) => size,
            Err(error) => return Err(error),
        };
        if size == 0 {
            assert(data@ + Seq::<u8>::empty() =~= data@);
            return Ok(data);
        }
        if stream.len() - at - 4 < size {
            return Err(copy_text("failed to fill whole buffer"));
        }
        reader.on_frame(copy_bytes(stream, at + 4, at + 4 + size));
        let piece: Vec<u8> = reader.take(size);
        proof {
            let part = here.subrange(4, 4 + size);
            assert(piece@ + reader.left() =~= part);
            assert(piece@ =~= part);
            assert(stream@.skip(at + 4 + size) =~= here.skip(4 + size));
        }
        push_bytes(&mut data, &piece);
        at = at + 4 + size;
        proof {
            match input_data(stream@.skip(at as int)) {
                Ok(rest) => {
                    assert(before + (piece@ + rest) =~= data@ + rest);
                },
                Err(_) => {},
            }
        }
    }
}

/// Framed input gives back every byte, however it was cut into writes.
pub proof fn input_round_trips(writes: Seq<Seq<u8>>, rest: Seq<u8>)
    ensures
        input_data(framed_writes(writes) + be32(0) + rest) == Ok::<_, Seq<char>>(writes.flatten()),
    decreases writes.len(),
{
    let end = be32(0) + rest;
    if writes.len() == 0 {
        assert(framed_writes(writes) + be32(0) + rest =~= end);
        lemma_be32(0);
        assert(be32_value(end) == be32_value(be32(0)));
        assert(writes.flatten() =~= seq![]);
    } else {
        let tail = writes.drop_first();
        input_round_trips(tail, rest);
        assert(framed_writes(writes) + be32(0) + rest =~= framed(writes[0]) + (framed_writes(tail)
            + be32(0) + rest));
        lemma_input_framed(writes[0], framed_writes(tail) + be32(0) + rest, tail.flatten());
        assert(writes.flatten() =~= writes[0] + tail.flatten());
    }
}

/// Data that was cut into frames comes before the rest of the input.
proof fn lemma_input_framed(data: Seq<u8>, rest: Seq<u8>, after: Seq<u8>)
    requires
        input_data(rest) == Ok::<_, Seq<char>>(after),
    ensures
        input_data(framed(data) + rest) == Ok::<_, Seq<char>>(data + after),
    decreases data.len(),
{
    if data.len() == 0 {
        assert(framed(data) + rest =~= rest);
        assert(data + after =~= after);
    } else {
        let size: int = if data.len() <= FRAME_CHUNK {
            data.len() as int
        } else {
            FRAME_CHUNK as int
        };
        let head = data.take(size);
        let tail = data.skip(size);
        let stream = framed(data) + rest;
        assert(head =~= data || data.len() > FRAME_CHUNK);
        assert(stream =~= frame(head) + (framed(tail) + rest));
        lemma_be32(head.len() as u32);
        assert(be32_value(stream) == be32_value(be32(head.len() as u32)));
        assert(stream.subrange(4, 4 + size) =~= head);
        assert(stream.skip(4 + size) =~= framed(tail) + rest);
        lemma_input_framed(tail, rest, after);
        assert(head + (tail + after) =~= data + after);
    }
}

/// What the answer to a request of the USB daemon says: the text behind the
/// status line, or the error.
pub open spec fn usb_answer(response: Seq<char>) -> Result<Seq<char>, Seq<char>> {
    match after_prefix(response, "OK\n"@) {
        Some(text) => Ok(text),
        None => match after_prefix(response, "ERR\t"@) {
            Some(message) => Err("direct USB daemon: "@ + message),
            None => Err("invalid daemon response: "@ + response),
        },
    }
}

/// Reads the answer to a request of the USB daemon.
pub fn parse_usb_answer(response: &str) -> (text: Result<String, String>)
    ensures
        match usb_answer(response@) {
            Ok(answer) => text is Ok && text->Ok_0@ == answer,
            Err(error) => complains(text, error),
        },
{
    match strip_prefix(response, "OK\n") {
        Some(text) => Ok(text),
        None => match strip_prefix(response, "ERR\t") {
            Some(message) => {
                let mut error: String = copy_text("direct USB daemon: ");
                append(&mut error, &message);
                Err(error)
            },
            None => {
                let mut error: String = copy_text("invalid daemon response: ");
                append(&mut error, response);
                Err(error)
            },
        },
    }
}

/// What the answer to a request of the wireless daemon says.
pub open spec fn wireless_answer(response: Seq<char>) -> Result<Seq<char>, Seq<char>> {
    match after_prefix(response, "OK\n"@) {
        Some(text) => Ok(text),
        None => Err(trim(response)),
    }
}

/// Reads the answer to a request of the wireless daemon.
pub fn parse_wireless_answer(response: &str) -> (text: Result<String, String>)
    ensures
        match wireless_answer(response@) {
            Ok(answer) => text is Ok && text->Ok_0@ == answer,
            Err(error) => complains(text, error),
        },
{
    match strip_prefix(response, "OK\n") {
        Some(text) => Ok(text),
        None => {
            let chars: Vec<char> = chars_of(response);
            Err(string_of(trimmed(chars.as_slice())))
        },
    }
}

/// The marks of an answer: yes is a line of its own, and no is a line with the reason
/// behind a tab.
pub proof fn answers_are_lines(error: Seq<char>)
    ensures
        STATUS_OK@ == encode_utf8("OK\n"@),
        error_line(error) == encode_utf8("ERR\t"@ + error + "\n"@),
        stream_tail(None) == be32(0) + encode_utf8("OK\n"@),
        stream_tail(Some(error)) == be32(0) + error_line(error),
{
    reveal_strlit("OK\n");
    is_ascii_chars_encode_utf8("OK\n"@);
    assert(STATUS_OK@ =~= encode_utf8("OK\n"@));
}

/// A stream has gone well exactly where its frames came to their end and nothing but the
/// line that says so stands behind it. One that breaks off, at whatever point, has not.
pub proof fn streams_that_break_off_are_failures(ended: Decoded)
    ensures
        stream_outcome(ended) is None <==> ended.phase is Terminal && ended.rest == encode_utf8(
            "OK\n"@,
        ),
        ended.phase is Frames ==> stream_outcome(ended) == Some("failed to fill whole buffer"@),
        ended.phase matches Phase::Failed(reason) ==> stream_outcome(ended) == Some(reason),
{
    answers_are_lines(seq![]);
}

/// A frame is its length, most significant byte first, and its data. A request is framed
/// in the same way. A frame of more than a megabyte is refused.
pub proof fn frames_tell_their_length(data: Seq<u8>, request: Seq<char>, stream: Seq<u8>)
    requires
        data.len() <= u32::MAX,
        encode_utf8(request).len() <= u32::MAX,
    ensures
        frame(data).take(4) == be32(data.len() as u32),
        frame(data).skip(4) == data,
        request_frame(request) == frame(encode_utf8(request)),
        0 < data.len() <= 65536 ==> framed(data) == frame(data),
        stream.len() >= 4 && be32_value(stream) > 1048576 ==> decoded_frames(stream, data).phase
            is Failed && decoded_frames(stream, data).output == data && input_data(stream) is Err,
{
    assert(frame(data).take(4) =~= be32(data.len() as u32));
    assert(frame(data).skip(4) =~= data);
}

/// An answer of the USB daemon is what stands behind its status: a text, or the reason
/// of a failure; anything else is told as it came.
pub proof fn answers_stand_behind_their_status(text: Seq<char>)
    ensures
        usb_answer("OK\n"@ + text) == Ok::<Seq<char>, Seq<char>>(text),
        usb_answer("ERR\t"@ + text) == Err::<Seq<char>, Seq<char>>("direct USB daemon: "@ + text),
        !"OK\n"@.is_prefix_of(text) && !"ERR\t"@.is_prefix_of(text) ==> usb_answer(text) == Err::<
            Seq<char>,
            Seq<char>,
        >("invalid daemon response: "@ + text),
        wireless_answer("OK\n"@ + text) == Ok::<Seq<char>, Seq<char>>(text),
        !"OK\n"@.is_prefix_of(text) ==> wireless_answer(text) == Err::<Seq<char>, Seq<char>>(
            trim(text),
        ),
{
    reveal_strlit("OK\n");
    reveal_strlit("ERR\t");
    prefixes_are_taken_off("OK\n"@, text, text);
    prefixes_are_taken_off("ERR\t"@, text, text);
    prefixes_are_taken_off("OK\n"@, text, "ERR\t"@ + text);
    assert(("ERR\t"@ + text)[0] == 'E');
    assert("OK\n"@[0] == 'O');
}

/// A frame that announces more than a frame may hold is refused, whatever follows.
pub proof fn oversized_frames_are_refused(stream: Seq<u8>, output: Seq<u8>)
    requires
        stream.len() >= 4,
        be32_value(stream) > MAX_FRAME,
    ensures
        decoded_frames(stream, output).phase == Phase::<Seq<char>>::Failed(
            "oversized output frame"@,
        ),
        decoded_frames(stream, output).output == output,
        input_data(stream) == Err::<Seq<u8>, Seq<char>>("oversized input frame"@),
{
}

} // verus!
