//! Transfers of files and directories, driven by what the device and the host
//! answer.

use crate::text::{
    blank, chars_of, complains, contains_char, copy_text, decimal, decimals_are_read_back,
    decode_lossy, format_number, format_signed, is_space, lossy, number, numbers_are_read_back,
    parse_i64, parse_unsigned, plus, signed_decimal, signed_decimals_are_read_back, signed_value,
    texts, unsigned_value, words, words_are_parted_by_space, words_of,
};
use vstd::prelude::*;
use vstd::utf8::*;

verus! {

/// A text with every single quote written so that a shell reads it.
pub open spec fn quoted(value: Seq<char>) -> Seq<char>
    decreases value.len(),
{
    if value.len() == 0 {
        seq![]
    } else {
        quoted(value.drop_last()) + if value.last() == '\'' {
            "'\\''"@
        } else {
            seq![value.last()]
        }
    }
}

/// A text as one word of a shell command.
pub open spec fn shell_word(value: Seq<char>) -> Seq<char> {
    "'"@ + quoted(value) + "'"@
}

/// Writes a text as one word of a shell command.
pub fn shell_quote(value: &str) -> (word: String)
    ensures
        word@ == shell_word(value@),
{
    let chars: Vec<char> = chars_of(value);
    let mut word: String = copy_text("'");
    let mut i: usize = 0;
    assert(chars@.take(0) =~= seq![]);
    assert("'"@ + quoted(chars@.take(0)) =~= "'"@);
    while i < chars.len()
        invariant
            i <= chars@.len(),
            word@ == "'"@ + quoted(chars@.take(i as int)),
        decreases chars@.len() - i,
    {
        let ghost before = word@;
        assert(chars@.take(i + 1).drop_last() =~= chars@.take(i as int));
        if chars[i] == '\'' {
            word = plus(word, "'\\''");
            assert(word@ =~= "'"@ + quoted(chars@.take(i + 1)));
        } else {
            word.push(chars[i]);
            assert(word@ =~= "'"@ + quoted(chars@.take(i + 1)));
        }
        i = i + 1;
    }
    assert(chars@.take(i as int) =~= chars@);
    plus(word, "'")
}

/// What a shell makes of a word that is made of quoted parts and escaped
/// characters only.
pub open spec fn shell_reads(word: Seq<char>, inside: bool) -> Option<Seq<char>>
    decreases word.len(),
{
    if word.len() == 0 {
        if inside {
            None
        } else {
            Some(seq![])
        }
    } else if word[0] == '\'' {
        shell_reads(word.drop_first(), !inside)
    } else if inside {
        match shell_reads(word.drop_first(), true) {
            Some(rest) => Some(seq![word[0]] + rest),
            None => None,
        }
    } else if word[0] == '\\' && word.len() > 1 {
        match shell_reads(word.skip(2), false) {
            Some(rest) => Some(seq![word[1]] + rest),
            None => None,
        }
    } else {
        None
    }
}

/// A shell reads the quoted text back, whatever follows it.
proof fn lemma_shell_reads(value: Seq<char>, tail: Seq<char>)
    requires
        shell_reads(tail, true) is Some,
    ensures
        shell_reads(quoted(value) + tail, true) == Some(value + shell_reads(tail, true)->0),
    decreases value.len(),
{
    if value.len() == 0 {
        assert(quoted(value) + tail =~= tail);
        assert(value + shell_reads(tail, true)->0 =~= shell_reads(tail, true)->0);
    } else {
        let front = value.drop_last();
        let c = value.last();
        let piece: Seq<char> = if c == '\'' {
            "'\\''"@
        } else {
            seq![c]
        };
        let more = piece + tail;
        let rest = shell_reads(tail, true)->0;
        assert(shell_reads(more, true) == Some(seq![c] + rest)) by {
            if c == '\'' {
                reveal_strlit("'\\''");
                assert(more.drop_first() =~= seq!['\\', '\'', '\''] + tail);
                let escaped = more.drop_first();
                assert(escaped.skip(2) =~= seq!['\''] + tail);
                assert(escaped.skip(2).drop_first() =~= tail);
                assert(shell_reads(escaped.skip(2), false) == Some(rest));
                assert(shell_reads(escaped, false) == Some(seq!['\''] + rest));
            } else {
                assert(more.drop_first() =~= tail);
            }
        }
        assert(quoted(value) + tail =~= quoted(front) + more);
        lemma_shell_reads(front, more);
        assert(front + (seq![c] + rest) =~= value + rest);
    }
}

/// A shell reads a quoted text as exactly that text.
pub proof fn quoting_is_undone(value: Seq<char>)
    ensures
        shell_reads(shell_word(value), false) == Some(value),
{
    reveal_strlit("'");
    let tail = "'"@;
    assert(tail.drop_first() =~= seq![]);
    assert(shell_reads(tail.drop_first(), false) == Some(Seq::<char>::empty()));
    assert(shell_reads(tail, true) == Some(Seq::<char>::empty()));
    lemma_shell_reads(value, tail);
    let word = shell_word(value);
    assert(word.drop_first() =~= quoted(value) + tail);
    assert(value + Seq::<char>::empty() =~= value);
}

/// Whether a path can stand in a request: it holds no line end, tab or zero.
pub open spec fn path_valid(path: Seq<char>) -> bool {
    !path.contains('\n') && !path.contains('\r') && !path.contains('\t') && !path.contains('\0')
}

/// The refusal of other paths.
pub open spec fn path_refusal() -> Seq<char> {
    "file paths containing control characters are not supported"@
}

/// Refuses a path that cannot stand in a request.
pub fn validate_transfer_path(path: &str) -> (checked: Result<(), String>)
    ensures
        if path_valid(path@) {
            checked is Ok
        } else {
            complains(checked, path_refusal())
        },
{
    if contains_char(path, '\n') || contains_char(path, '\r') || contains_char(path, '\t')
        || contains_char(path, '\0') {
        return Err(copy_text("file paths containing control characters are not supported"));
    }
    Ok(())
}

/// What a file of the host is.
#[derive(Clone, Copy, Debug, PartialEq, Eq, Structural)]
pub enum FileKind {
    /// A directory.
    Directory,
    /// A symbolic link.
    Link,
    /// A regular file.
    File,
    /// Something else.
    Other,
}

/// What is known of a file of the host.
#[derive(Clone, Copy, Debug, PartialEq, Eq, Structural)]
pub struct Metadata {
    /// What it is.
    pub kind: FileKind,
    /// Its size.
    pub size: u64,
    /// Its mode.
    pub mode: u32,
    /// When it was modified, in seconds.
    pub mtime: i64,
}

/// The command that makes a directory on the device.
pub open spec fn mkdir_command(path: Seq<char>) -> Seq<char> {
    "mkdir -p -- "@ + shell_word(path)
}

/// Builds the command that makes a directory on the device.
pub(crate) fn mkdir(path: &str) -> (command: String)
    ensures
        command@ == mkdir_command(path@),
{
    plus(copy_text("mkdir -p -- "), &shell_quote(path))
}

/// The command that asks whether a path of the device is a directory.
pub open spec fn probe_command(path: Seq<char>) -> Seq<char> {
    "if [ -d "@ + shell_word(path) + " ]; then printf directory; fi"@
}

/// The command that puts a symbolic link on the device.
pub open spec fn link_command(above: Seq<char>, remote: Seq<char>, target: Seq<char>) -> Seq<
    char,
> {
    "mkdir -p -- "@ + shell_word(above) + " && rm -f -- "@ + shell_word(remote) + " && ln -s -- "@
        + shell_word(target) + " "@ + shell_word(remote)
}

/// Builds the command that puts a symbolic link on the device.
pub(crate) fn link(above: &str, remote: &str, target: &str) -> (command: String)
    ensures
        command@ == link_command(above@, remote@, target@),
{
    plus(
        plus(
            plus(
                plus(
                    plus(
                        plus(
                            plus(copy_text("mkdir -p -- "), &shell_quote(above)),
                            " && rm -f -- ",
                        ),
                        &shell_quote(remote),
                    ),
                    " && ln -s -- ",
                ),
                &shell_quote(target),
            ),
            " ",
        ),
        &shell_quote(remote),
    )
}

/// The command that gives a path of the device the time and mode of a file.
pub open spec fn metadata_command(remote: Seq<char>, metadata: Metadata) -> Seq<char> {
    "touch -m -d @"@ + signed_decimal(metadata.mtime as int) + " -- "@ + shell_word(remote)
        + " && chmod "@ + number((metadata.mode % 4096) as nat, 8, 1) + " -- "@ + shell_word(remote)
}

/// Builds the command that gives a path of the device the time and mode of a
/// file.
pub(crate) fn apply_remote_metadata(remote: &str, metadata: &Metadata) -> (command: String)
    ensures
        command@ == metadata_command(remote@, *metadata),
{
    let mode: u64 = (metadata.mode % 4096) as u64;
    plus(
        plus(
            plus(
                plus(
                    plus(
                        plus(
                            plus(
                                copy_text("touch -m -d @"),
                                &format_signed(metadata.mtime),
                            ),
                            " -- ",
                        ),
                        &shell_quote(remote),
                    ),
                    " && chmod ",
                ),
                &format_number(mode, 8, 1),
            ),
            " -- ",
        ),
        &shell_quote(remote),
    )
}

/// The command that asks for the size and time of a file of the device.
pub open spec fn stat_command(remote: Seq<char>) -> Seq<char> {
    "stat -c '%s %Y' -- "@ + shell_word(remote)
}

/// Whether the size and time of a file of the device, as it prints them, show
/// that it is current: the same size, and not older.
pub open spec fn shows_current(output: Seq<u8>, metadata: Metadata) -> bool {
    let list = words(lossy(output));
    &&& list.len() >= 2
    &&& unsigned_value(list[0], 10, 0xffff_ffff_ffff_ffff) == Some(metadata.size as nat)
    &&& signed_value(list[1]) is Some
    &&& signed_value(list[1])->0 >= metadata.mtime
}

/// Whether a file of the device is current.
pub fn remote_file_is_current(output: &[u8], metadata: &Metadata) -> (current: bool)
    ensures
        current == shows_current(output@, *metadata),
{
    let text: String = decode_lossy(output);
    let chars: Vec<char> = chars_of(&text);
    let list: Vec<String> = words_of(chars.as_slice());
    assert(texts(list@).len() == list@.len());
    if list.len() < 2 {
        return false;
    }
    assert(texts(list@)[0] == list@[0]@);
    assert(texts(list@)[1] == list@[1]@);
    let size: Option<u64> = parse_unsigned(&list[0], 10, 0xffff_ffff_ffff_ffff);
    let mtime: Option<i64> = parse_i64(&list[1]);
    match (size, mtime) {
        (Some(size), Some(mtime)) => size == metadata.size && mtime >= metadata.mtime,
        _ => false,
    }
}

/// What the device is told to do: each path is quoted, and stands behind the mark that
/// ends the options, so that none is taken for an option.
pub proof fn commands_quote_their_paths(
    path: Seq<char>,
    above: Seq<char>,
    target: Seq<char>,
    metadata: Metadata,
)
    ensures
        mkdir_command(path) == "mkdir -p -- "@ + shell_word(path),
        stat_command(path) == "stat -c '%s %Y' -- "@ + shell_word(path),
        probe_command(path) == "if [ -d "@ + shell_word(path)
            + " ]; then printf directory; fi"@,
        link_command(above, path, target) == mkdir_command(above) + " && rm -f -- "@
            + shell_word(path) + " && ln -s -- "@ + shell_word(target) + " "@ + shell_word(path),
        metadata_command(path, metadata) == "touch -m -d @"@ + signed_decimal(metadata.mtime as int)
            + " -- "@ + shell_word(path) + " && chmod "@ + number(
            (metadata.mode % 4096) as nat,
            8,
            1,
        ) + " -- "@ + shell_word(path),
{
}

/// A path is refused exactly where it holds a newline, a carriage return, a tab or a
/// zero.
pub proof fn control_characters_are_refused(path: Seq<char>)
    ensures
        path_valid(path) <==> forall|i: int|
            0 <= i < path.len() ==> #[trigger] path[i] != '\n' && path[i] != '\r'
                && path[i] != '\t' && path[i] != '\0',
{
    if path_valid(path) {
        assert forall|i: int| 0 <= i < path.len() implies #[trigger] path[i] != '\n'
            && path[i] != '\r' && path[i] != '\t' && path[i] != '\0' by {
            assert(path.contains(path[i]));
        }
    }
}

/// A file of the device is current where it has the size of the one of the host, and was
/// not modified before it.
pub proof fn current_files_have_the_size_and_are_not_older(
    output: Seq<u8>,
    size: u64,
    mtime: i64,
    tail: Seq<char>,
    metadata: Metadata,
)
    requires
        lossy(output) == decimal(size as nat) + " "@ + signed_decimal(mtime as int) + tail,
        blank(tail),
    ensures
        shows_current(output, metadata) <==> size == metadata.size && mtime >= metadata.mtime,
{
    reveal_strlit(" ");
    reveal_strlit("-");
    let first = decimal(size as nat);
    let second = signed_decimal(mtime as int);
    let amount: nat = if mtime < 0 {
        (-mtime) as nat
    } else {
        mtime as nat
    };
    numbers_are_read_back(size as nat, 10, 1);
    numbers_are_read_back(amount, 10, 1);
    decimals_are_read_back(size as nat, 0xffff_ffff_ffff_ffff);
    signed_decimals_are_read_back(mtime as int);
    let rest = " "@ + second + tail;
    assert(rest[0] == ' ');
    assert(lossy(output) =~= Seq::<char>::empty() + first + rest);
    words_are_parted_by_space(seq![], first, rest);
    assert(rest =~= " "@ + second + tail);
    assert forall|i: int| 0 <= i < second.len() implies !is_space(#[trigger] second[i]) by {
        if mtime < 0 && i > 0 {
            assert(second[i] == decimal(amount)[i - 1]);
        }
    }
    words_are_parted_by_space(" "@, second, tail);
    words_are_parted_by_space(tail, seq!['x'], seq![]);
    let list = words(lossy(output));
    assert(list[0] == first);
    assert(list[1] == second);
}

/// A file whose state the device does not tell is not current.
pub proof fn unknown_files_are_not_current(output: Seq<u8>, metadata: Metadata)
    requires
        words(lossy(output)).len() < 2,
    ensures
        !shows_current(output, metadata),
{
}

} // verus!
