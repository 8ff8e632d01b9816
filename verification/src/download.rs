//! Downloads of files and directories.
//!
//! A download reads a manifest of each source from the device, and then asks the
//! host and the device for one action at a time.

use crate::paths::{
    base_name, beside, check_pull_ancestors, download_ancestors, file_name, join_path, joined,
    parent, parent_of, safe_relative, safe_relative_remote_path, with_file_name,
};
use crate::requests::{Transfer, TransferOptions, TransferRequest};
use crate::text::{
    chars_of, complains, copy_text, decimal, decode, digits_value, empty_text, format_number, hex,
    join, lemma_join_split, lines, lines_of, number, numbers_are_read_back, plus, read_signed,
    read_unsigned, signed_complaint, signed_decimal, signed_decimals_are_read_back, signed_value,
    split, split_at_char, string_of, texts, trim_end, trimmed_end, unsigned_complaint,
    unsigned_digits, unsigned_value, utf8_complaint,
};
use crate::transfer::{
    path_refusal, path_valid, shell_quote, shell_word, validate_transfer_path,
};
use vstd::prelude::*;
use vstd::utf8::*;

verus! {

/// What an entry of the device is.
#[derive(Clone, Copy, Debug, PartialEq, Eq, Structural)]
pub enum EntryKind {
    /// A regular file.
    File,
    /// A directory.
    Directory,
    /// A symbolic link.
    Link,
}

/// An entry of the device.
#[derive(Debug)]
pub struct RemoteEntry<T> {
    /// What it is.
    pub kind: EntryKind,
    /// Its mode.
    pub mode: u32,
    /// When it was modified, in seconds.
    pub mtime: i64,
    /// Its path.
    pub path: T,
}

/// What an entry says.
pub open spec fn entry_view(entry: RemoteEntry<String>) -> RemoteEntry<Seq<char>> {
    RemoteEntry { kind: entry.kind, mode: entry.mode, mtime: entry.mtime, path: entry.path@ }
}

/// What entries say.
pub open spec fn entry_views(list: Seq<RemoteEntry<String>>) -> Seq<RemoteEntry<Seq<char>>> {
    list.map_values(|entry: RemoteEntry<String>| entry_view(entry))
}

/// The command that prints the manifest of a source: a line with the kind, mode,
/// time and path of each entry.
pub open spec fn manifest_command(source: Seq<char>) -> Seq<char> {
    "find "@ + shell_word(source)
        + " -print | while IFS= read -r p; do if [ -L \"$p\" ]; then k=l; elif [ -d \"$p\" ]; then k=d; elif [ -f \"$p\" ]; then k=f; else k=o; fi; mode=$(stat -c '%a' -- \"$p\") || exit; mtime=$(stat -c '%Y' -- \"$p\") || exit; printf '%s\\t%s\\t%s\\t%s\\n' \"$k\" \"$mode\" \"$mtime\" \"$p\"; done"@
}

/// Builds the command that prints the manifest of a source.
fn manifest_script(source: &str) -> (command: String)
    ensures
        command@ == manifest_command(source@),
{
    plus(
        plus(copy_text("find "), &shell_quote(source)),
        " -print | while IFS= read -r p; do if [ -L \"$p\" ]; then k=l; elif [ -d \"$p\" ]; then k=d; elif [ -f \"$p\" ]; then k=f; else k=o; fi; mode=$(stat -c '%a' -- \"$p\") || exit; mtime=$(stat -c '%Y' -- \"$p\") || exit; printf '%s\\t%s\\t%s\\t%s\\n' \"$k\" \"$mode\" \"$mtime\" \"$p\"; done",
    )
}

/// What a line of a manifest says; nothing for an entry that is not transferred.
pub open spec fn manifest_line(line: Seq<char>) -> Result<
    Option<RemoteEntry<Seq<char>>>,
    Seq<char>,
> {
    let list = split(line, '\t');
    if list.len() < 4 {
        Err("invalid remote file manifest"@)
    } else if list[0].len() == 0 {
        Err("missing remote file type"@)
    } else {
        let letter = list[0][0];
        if letter != 'f' && letter != 'd' && letter != 'l' {
            Ok(None)
        } else if list.len() > 4 || !path_valid(list[3]) {
            Err(path_refusal())
        } else {
            match (unsigned_value(list[1], 8, 0xffff_ffff), signed_value(list[2])) {
                (None, _) => Err(unsigned_complaint(list[1], 8, 0xffff_ffff)),
                (_, None) => Err(signed_complaint(list[2])),
                (Some(mode), Some(mtime)) => Ok(
                    Some(
                        RemoteEntry {
                            kind: if letter == 'f' {
                                EntryKind::File
                            } else if letter == 'd' {
                                EntryKind::Directory
                            } else {
                                EntryKind::Link
                            },
                            mode: mode as u32,
                            mtime: mtime as i64,
                            path: list[3],
                        },
                    ),
                ),
            }
        }
    }
}

/// Reads a line of a manifest.
fn read_manifest_line(line: &str) -> (entry: Result<Option<RemoteEntry<String>>, String>)
    ensures
        match manifest_line(line@) {
            Ok(None) => entry is Ok && entry->Ok_0 is None,
            Ok(Some(said)) => entry is Ok && entry->Ok_0 is Some && entry_view(entry->Ok_0->0)
                == said,
            Err(error) => complains(entry, error),
        },
{
    let chars: Vec<char> = chars_of(line);
    let list: Vec<String> = split_at_char(chars.as_slice(), '\t');
    let ghost all = split(line@, '\t');
    assert(texts(list@).len() == list@.len());
    if list.len() < 4 {
        return Err(copy_text("invalid remote file manifest"));
    }
    assert(all[0] == list@[0]@);
    assert(all[1] == list@[1]@);
    assert(all[2] == list@[2]@);
    assert(all[3] == list@[3]@);
    let letters: Vec<char> = chars_of(&list[0]);
    if letters.len() == 0 {
        return Err(copy_text("missing remote file type"));
    }
    let letter: char = letters[0];
    let kind: EntryKind = if letter == 'f' {
        EntryKind::File
    } else if letter == 'd' {
        EntryKind::Directory
    } else if letter == 'l' {
        EntryKind::Link
    } else {
        return Ok(None);
    };
    if list.len() > 4 {
        return Err(copy_text("file paths containing control characters are not supported"));
    }
    match validate_transfer_path(&list[3]) {
        Ok(()) => {},
        Err(error) => return Err(error),
    }
    let mode: u64 = match read_unsigned(&list[1], 8, 0xffff_ffff) {
        Ok(mode) => mode,
        Err(error) => return Err(error),
    };
    let mtime: i64 = match read_signed(&list[2]) {
        Ok(mtime) => mtime,
        Err(error) => return Err(error),
    };
    Ok(Some(RemoteEntry { kind, mode: mode as u32, mtime, path: copy_text(&list[3]) }))
}

/// The entries that the first lines of a manifest list.
pub open spec fn manifest_lines(list: Seq<Seq<char>>, n: int) -> Result<
    Seq<RemoteEntry<Seq<char>>>,
    Seq<char>,
>
    decreases n,
{
    if n <= 0 {
        Ok(seq![])
    } else {
        match (manifest_lines(list, n - 1), manifest_line(list[n - 1])) {
            (Err(error), _) => Err(error),
            (_, Err(error)) => Err(error),
            (Ok(entries), Ok(None)) => Ok(entries),
            (Ok(entries), Ok(Some(entry))) => Ok(entries.push(entry)),
        }
    }
}

/// The entries that the manifest of a source lists.
pub open spec fn manifest(source: Seq<char>, output: Seq<u8>) -> Result<
    Seq<RemoteEntry<Seq<char>>>,
    Seq<char>,
> {
    if !valid_utf8(output) {
        Err(utf8_complaint(output))
    } else {
        let list = lines(decode_utf8(output));
        match manifest_lines(list, list.len() as int) {
            Err(error) => Err(error),
            Ok(entries) => if entries.len() == 0 {
                Err("remote path does not exist: "@ + source)
            } else {
                Ok(entries)
            },
        }
    }
}

/// An error among the first lines stays.
proof fn lemma_manifest_error(list: Seq<Seq<char>>, n: int, m: int)
    requires
        0 <= n <= m,
        manifest_lines(list, n) is Err,
    ensures
        manifest_lines(list, m) == manifest_lines(list, n),
    decreases m - n,
{
    if n < m {
        lemma_manifest_error(list, n, m - 1);
    }
}

/// Reads the manifest of a source.
pub fn remote_manifest(source: &str, output: &[u8]) -> (entries: Result<
    Vec<RemoteEntry<String>>,
    String,
>)
    ensures
        match manifest(source@, output@) {
            Ok(said) => entries is Ok && entry_views(entries->Ok_0@) == said,
            Err(error) => complains(entries, error),
        },
{
    let text: String = match decode(output) {
        Ok(text) => text,
        Err(complaint) => return Err(complaint),
    };
    let chars: Vec<char> = chars_of(&text);
    let list: Vec<String> = lines_of(chars.as_slice());
    let ghost all = lines(text@);
    let mut entries: Vec<RemoteEntry<String>> = Vec::new();
    let mut i: usize = 0;
    assert(entry_views(entries@) =~= seq![]);
    assert(texts(list@).len() == list@.len());
    while i < list.len()
        invariant
            i <= list@.len(),
            valid_utf8(output@),
            text@ == decode_utf8(output@),
            all == lines(text@),
            texts(list@) == all,
            all.len() == list@.len(),
            manifest_lines(all, i as int) == Ok::<_, Seq<char>>(entry_views(entries@)),
        decreases list@.len() - i,
    {
        assert(all[i as int] == list@[i as int]@);
        match read_manifest_line(&list[i]) {
            Ok(None) => {},
            Ok(Some(entry)) => {
                let ghost before = entry_views(entries@);
                let ghost said = entry_view(entry);
                entries.push(entry);
                assert(entry_views(entries@) =~= before.push(said));
            },
            Err(error) => {
                proof {
                    lemma_manifest_error(all, i + 1, all.len() as int);
                }
                return Err(error);
            },
        }
        i = i + 1;
    }
    assert(entry_views(entries@).len() == entries@.len());
    if entries.len() == 0 {
        return Err(plus(copy_text("remote path does not exist: "), source));
    }
    Ok(entries)
}

/// The name of the file that a download is written to before it is complete.
pub open spec fn partial_file(high: u64, low: u64) -> Seq<char> {
    ".mab-"@ + hex(high as nat, 16) + hex(low as nat, 16) + ".partial"@
}

/// Builds the name of the file that a download is written to before it is
/// complete, from random bits.
pub fn partial_name(high: u64, low: u64) -> (name: String)
    ensures
        name@ == partial_file(high, low),
{
    plus(
        plus(
            plus(copy_text(".mab-"), &format_number(high, 16, 16)),
            &format_number(low, 16, 16),
        ),
        ".partial",
    )
}

/// One thing to do for an entry.
#[derive(Debug)]
pub enum DownloadTask<T> {
    /// Print a line.
    Print(T),
    /// Ask whether the destination is a directory, before the paths above a place
    /// are looked at.
    AskDirectory {
        /// The place.
        local: T,
        /// Whether a directory is put there.
        directory: bool,
    },
    /// Look for links among the paths above a place.
    Inspect {
        /// The root of the download.
        root: T,
        /// The place.
        local: T,
        /// Whether a directory is put there.
        directory: bool,
    },
    /// Make a directory and those above it.
    MakeDirectory(T),
    /// Read a link of the device.
    ReadLink {
        /// The path of the link.
        remote: T,
        /// Where it is put on the host.
        local: T,
    },
    /// Ask whether anything is where a link goes.
    AskPlace {
        /// The target of the link.
        target: T,
        /// Where it is put.
        local: T,
    },
    /// Remove a file.
    RemoveFile(T),
    /// Put a link on the host.
    MakeLink {
        /// The target of the link.
        target: T,
        /// Where it is put.
        local: T,
    },
    /// Download a file to a temporary one and put that in place: draw a name for the
    /// temporary one.
    Pull {
        /// The path on the device.
        remote: T,
        /// Where it is put on the host.
        local: T,
    },
    /// Set the mode and time of a path of the host.
    SetMetadata {
        /// The path.
        path: T,
        /// The mode.
        mode: u32,
        /// The time, in seconds.
        mtime: u64,
    },
}

/// What is done with the temporary file of a download.
#[derive(Clone, Copy, Debug, PartialEq, Eq, Structural)]
pub enum PullStep {
    /// It is created.
    Create,
    /// It is filled with what the device sends.
    Fetch,
    /// It is brought to the disk.
    Sync,
    /// It is put in place.
    Replace,
}

/// The mode of a temporary file: only its owner reads and writes it.
pub const TEMPORARY_MODE: u32 = 0o600;

/// What a download waits for.
#[derive(Debug)]
pub enum DownloadWait<T> {
    /// Whether the destination is a directory.
    Destination,
    /// The manifest of the current source.
    Manifest,
    /// The end of a task.
    Task(DownloadTask<T>),
    /// The end of a step with a temporary file.
    Temporary {
        /// The step.
        step: PullStep,
        /// The path on the device.
        remote: T,
        /// Where the file is put on the host.
        local: T,
        /// The temporary file.
        temporary: T,
    },
    /// The removal of a temporary file.
    Clear {
        /// The temporary file.
        temporary: T,
        /// How the download of the file went.
        outcome: Result<(), T>,
    },
    /// Nothing: the download is over.
    Over,
}

/// What a download asks for.
#[derive(Debug)]
pub enum DownloadAction<T, L> {
    /// Say whether a path of the host is a directory.
    IsDirectory(T),
    /// Run a shell command on the device and hand its output back.
    Shell(T),
    /// Print a line.
    Print(T),
    /// Say of each of these paths of the host whether it is a link.
    AreLinks(L),
    /// Make a directory and those above it.
    MakeDirectory(T),
    /// Say whether anything, be it a link to nothing, is at a path of the host.
    Exists(T),
    /// Remove a file of the host.
    RemoveFile(T),
    /// Put a link on the host.
    MakeLink {
        /// The target of the link.
        target: T,
        /// Where it is put.
        local: T,
    },
    /// Draw random bits.
    DrawBits,
    /// Create a file of the host that was not there.
    CreateTemporary {
        /// The path.
        path: T,
        /// The mode.
        mode: u32,
    },
    /// Download a file into the temporary one.
    Fetch {
        /// The path on the device.
        remote: T,
        /// The temporary file.
        temporary: T,
    },
    /// Bring the temporary file to the disk.
    Sync(T),
    /// Give the temporary file another path, in place of what is there.
    Replace {
        /// The temporary file.
        temporary: T,
        /// Its new path.
        local: T,
    },
    /// Remove the temporary file, if it is still there. That may fail.
    RemoveTemporary(T),
    /// Set the mode and time of a path of the host.
    SetMetadata {
        /// The path.
        path: T,
        /// The mode.
        mode: u32,
        /// The time, in seconds.
        mtime: u64,
    },
    /// The download is over.
    Finish(Result<(), T>),
}

/// The answer to an action.
#[derive(Debug)]
pub enum DownloadEvent<T, B, M> {
    /// It is done.
    Done,
    /// It failed, for this reason.
    Failed(T),
    /// The output of a shell command.
    Output(B),
    /// Yes or no.
    Answer(bool),
    /// Whether each path is a link.
    Links(M),
    /// Random bits.
    Bits(u64, u64),
    /// The file could not be created: something has that name.
    Taken,
}

/// A directory that was made, with the mode and time it had on the device.
#[derive(Debug)]
pub struct MadeDirectory<T> {
    /// The path on the host.
    pub path: T,
    /// The mode.
    pub mode: u32,
    /// The time, in seconds.
    pub mtime: u64,
}

/// What a directory that was made says.
pub open spec fn made_views(list: Seq<MadeDirectory<String>>) -> Seq<MadeDirectory<Seq<char>>> {
    list.map_values(
        |item: MadeDirectory<String>|
            MadeDirectory { path: item.path@, mode: item.mode, mtime: item.mtime },
    )
}

/// A download.
#[derive(Debug)]
pub struct Download {
    options: TransferOptions,
    destination: String,
    multi: bool,
    sources: Vec<String>,
    source: String,
    root_is_directory: bool,
    local_root: String,
    entries: Vec<RemoteEntry<String>>,
    next: usize,
    directories: Vec<MadeDirectory<String>>,
    queue: Vec<DownloadTask<String>>,
    waiting: DownloadWait<String>,
}

/// What a download is.
#[verifier::ext_equal]
pub ghost struct DownloadState {
    /// The options.
    pub options: TransferOptions,
    /// The destination on the host.
    pub destination: Seq<char>,
    /// Whether the sources are put into the destination, each under its name.
    pub multi: bool,
    /// The sources that are left.
    pub sources: Seq<Seq<char>>,
    /// The current source.
    pub source: Seq<char>,
    /// Whether the current source is a directory.
    pub root_is_directory: bool,
    /// Where the current source is put on the host.
    pub local_root: Seq<char>,
    /// The entries of the current source.
    pub entries: Seq<RemoteEntry<Seq<char>>>,
    /// The number of the next entry.
    pub next: int,
    /// The directories whose metadata is set at the end of the source.
    pub directories: Seq<MadeDirectory<Seq<char>>>,
    /// The tasks that are left for the current entry.
    pub queue: Seq<DownloadTask<Seq<char>>>,
    /// What it waits for.
    pub waiting: DownloadWait<Seq<char>>,
}

/// What a task says.
pub open spec fn download_task_view(task: DownloadTask<String>) -> DownloadTask<Seq<char>> {
    match task {
        DownloadTask::Print(line) => DownloadTask::Print(line@),
        DownloadTask::AskDirectory { local, directory } => DownloadTask::AskDirectory {
            local: local@,
            directory,
        },
        DownloadTask::Inspect { root, local, directory } => DownloadTask::Inspect {
            root: root@,
            local: local@,
            directory,
        },
        DownloadTask::MakeDirectory(path) => DownloadTask::MakeDirectory(path@),
        DownloadTask::ReadLink { remote, local } => DownloadTask::ReadLink {
            remote: remote@,
            local: local@,
        },
        DownloadTask::AskPlace { target, local } => DownloadTask::AskPlace {
            target: target@,
            local: local@,
        },
        DownloadTask::RemoveFile(path) => DownloadTask::RemoveFile(path@),
        DownloadTask::MakeLink { target, local } => DownloadTask::MakeLink {
            target: target@,
            local: local@,
        },
        DownloadTask::Pull { remote, local } => DownloadTask::Pull {
            remote: remote@,
            local: local@,
        },
        DownloadTask::SetMetadata { path, mode, mtime } => DownloadTask::SetMetadata {
            path: path@,
            mode,
            mtime,
        },
    }
}

/// What tasks say.
pub open spec fn download_task_views(list: Seq<DownloadTask<String>>) -> Seq<
    DownloadTask<Seq<char>>,
> {
    list.map_values(|task: DownloadTask<String>| download_task_view(task))
}

/// What a download waits for.
pub open spec fn download_wait_view(wait: DownloadWait<String>) -> DownloadWait<Seq<char>> {
    match wait {
        DownloadWait::Destination => DownloadWait::Destination,
        DownloadWait::Manifest => DownloadWait::Manifest,
        DownloadWait::Task(task) => DownloadWait::Task(download_task_view(task)),
        DownloadWait::Temporary { step, remote, local, temporary } => DownloadWait::Temporary {
            step,
            remote: remote@,
            local: local@,
            temporary: temporary@,
        },
        DownloadWait::Clear { temporary, outcome } => DownloadWait::Clear {
            temporary: temporary@,
            outcome: outcome_view(outcome),
        },
        DownloadWait::Over => DownloadWait::Over,
    }
}

/// How something went.
pub open spec fn outcome_view(outcome: Result<(), String>) -> Result<(), Seq<char>> {
    match outcome {
        Ok(()) => Ok(()),
        Err(error) => Err(error@),
    }
}

/// What an action says.
pub open spec fn download_action_view(action: DownloadAction<String, Vec<String>>) -> DownloadAction<
    Seq<char>,
    Seq<Seq<char>>,
> {
    match action {
        DownloadAction::IsDirectory(path) => DownloadAction::IsDirectory(path@),
        DownloadAction::Shell(command) => DownloadAction::Shell(command@),
        DownloadAction::Print(line) => DownloadAction::Print(line@),
        DownloadAction::AreLinks(list) => DownloadAction::AreLinks(texts(list@)),
        DownloadAction::MakeDirectory(path) => DownloadAction::MakeDirectory(path@),
        DownloadAction::Exists(path) => DownloadAction::Exists(path@),
        DownloadAction::RemoveFile(path) => DownloadAction::RemoveFile(path@),
        DownloadAction::MakeLink { target, local } => DownloadAction::MakeLink {
            target: target@,
            local: local@,
        },
        DownloadAction::DrawBits => DownloadAction::DrawBits,
        DownloadAction::CreateTemporary { path, mode } => DownloadAction::CreateTemporary {
            path: path@,
            mode,
        },
        DownloadAction::Fetch { remote, temporary } => DownloadAction::Fetch {
            remote: remote@,
            temporary: temporary@,
        },
        DownloadAction::Sync(path) => DownloadAction::Sync(path@),
        DownloadAction::Replace { temporary, local } => DownloadAction::Replace {
            temporary: temporary@,
            local: local@,
        },
        DownloadAction::RemoveTemporary(path) => DownloadAction::RemoveTemporary(path@),
        DownloadAction::SetMetadata { path, mode, mtime } => DownloadAction::SetMetadata {
            path: path@,
            mode,
            mtime,
        },
        DownloadAction::Finish(outcome) => DownloadAction::Finish(outcome_view(outcome)),
    }
}

/// What an answer says.
pub open spec fn download_event_view(
    event: DownloadEvent<String, Vec<u8>, Vec<bool>>,
) -> Answered {
    match event {
        DownloadEvent::Done => DownloadEvent::Done,
        DownloadEvent::Failed(error) => DownloadEvent::Failed(error@),
        DownloadEvent::Output(output) => DownloadEvent::Output(output@),
        DownloadEvent::Answer(yes) => DownloadEvent::Answer(yes),
        DownloadEvent::Links(links) => DownloadEvent::Links(links@),
        DownloadEvent::Bits(high, low) => DownloadEvent::Bits(high, low),
        DownloadEvent::Taken => DownloadEvent::Taken,
    }
}

/// An answer, as plain values.
pub type Answered = DownloadEvent<Seq<char>, Seq<u8>, Seq<bool>>;

/// What a download does and then waits for.
pub type DownloadStep = (DownloadState, DownloadAction<Seq<char>, Seq<Seq<char>>>);

/// A download that ends.
pub open spec fn download_ends(state: DownloadState, result: Result<(), Seq<char>>) -> DownloadStep {
    (DownloadState { waiting: DownloadWait::Over, ..state }, DownloadAction::Finish(result))
}

/// The action of a task.
pub open spec fn download_task_action(
    destination: Seq<char>,
    task: DownloadTask<Seq<char>>,
) -> DownloadAction<Seq<char>, Seq<Seq<char>>> {
    match task {
        DownloadTask::Print(line) => DownloadAction::Print(line),
        DownloadTask::AskDirectory { .. } => DownloadAction::IsDirectory(destination),
        DownloadTask::Inspect { root, local, directory } => DownloadAction::AreLinks(
            download_ancestors(root, local, directory),
        ),
        DownloadTask::MakeDirectory(path) => DownloadAction::MakeDirectory(path),
        DownloadTask::ReadLink { remote, .. } => DownloadAction::Shell(
            "readlink -- "@ + shell_word(remote),
        ),
        DownloadTask::AskPlace { local, .. } => DownloadAction::Exists(local),
        DownloadTask::RemoveFile(path) => DownloadAction::RemoveFile(path),
        DownloadTask::MakeLink { target, local } => DownloadAction::MakeLink { target, local },
        DownloadTask::Pull { .. } => DownloadAction::DrawBits,
        DownloadTask::SetMetadata { path, mode, mtime } => DownloadAction::SetMetadata {
            path,
            mode,
            mtime,
        },
    }
}

/// The time of an entry, for the host: not before the epoch.
pub open spec fn host_time(mtime: i64) -> u64 {
    if mtime < 0 {
        0
    } else {
        mtime as u64
    }
}

/// The tasks that make the directory above a place.
pub open spec fn make_above(local: Seq<char>) -> Seq<DownloadTask<Seq<char>>> {
    match parent(local) {
        Some(above) => seq![DownloadTask::MakeDirectory(above)],
        None => seq![],
    }
}

/// The tasks for an entry that goes to a place.
pub open spec fn download_tasks(
    state: DownloadState,
    entry: RemoteEntry<Seq<char>>,
    local: Seq<char>,
) -> Seq<DownloadTask<Seq<char>>> {
    let directory = entry.kind == EntryKind::Directory;
    let printed: Seq<DownloadTask<Seq<char>>> = if state.options.quiet {
        seq![]
    } else {
        seq![DownloadTask::Print(entry.path + " -> "@ + local)]
    };
    let guarded = if state.multi || state.root_is_directory {
        printed.push(DownloadTask::Inspect { root: state.destination, local, directory })
    } else {
        printed.push(DownloadTask::AskDirectory { local, directory })
    };
    match entry.kind {
        EntryKind::Directory => guarded.push(DownloadTask::MakeDirectory(local)),
        EntryKind::Link => (guarded + make_above(local)).push(
            DownloadTask::ReadLink { remote: entry.path, local },
        ),
        EntryKind::File => {
            let fetched = (guarded + make_above(local)).push(
                DownloadTask::Pull { remote: entry.path, local },
            );
            if state.options.archive {
                fetched.push(
                    DownloadTask::SetMetadata {
                        path: local,
                        mode: (entry.mode % 4096) as u32,
                        mtime: host_time(entry.mtime),
                    },
                )
            } else {
                fetched
            }
        },
    }
}

/// Where an entry goes on the host.
pub open spec fn entry_local(local_root: Seq<char>, rest: Seq<char>) -> Seq<char> {
    if rest.len() == 0 {
        local_root
    } else {
        joined(local_root, rest)
    }
}

/// A download with the tasks of an entry.
pub open spec fn download_entry(
    state: DownloadState,
    entry: RemoteEntry<Seq<char>>,
    rest: Seq<char>,
) -> DownloadState {
    let local = entry_local(state.local_root, rest);
    DownloadState {
        next: state.next + 1,
        queue: download_tasks(state, entry, local),
        directories: if entry.kind == EntryKind::Directory && state.options.archive {
            state.directories.push(
                MadeDirectory {
                    path: local,
                    mode: (entry.mode % 4096) as u32,
                    mtime: host_time(entry.mtime),
                },
            )
        } else {
            state.directories
        },
        ..state
    }
}

/// What a download does with the first task that is left.
pub open spec fn download_task(state: DownloadState) -> DownloadStep {
    let task = state.queue[0];
    (
        DownloadState {
            queue: state.queue.drop_first(),
            waiting: DownloadWait::Task(task),
            ..state
        },
        download_task_action(state.destination, task),
    )
}

/// What a download does next: the tasks of the current entry, then the next
/// entry, then the metadata of the directories from the last to the first, then
/// the next source.
pub open spec fn download_advance(state: DownloadState) -> DownloadStep {
    if state.queue.len() > 0 {
        download_task(state)
    } else if state.next < state.entries.len() {
        let entry = state.entries[state.next];
        match safe_relative(state.source, entry.path) {
            Err(error) => download_ends(state, Err(error)),
            Ok(rest) => download_task(download_entry(state, entry, rest)),
        }
    } else if state.directories.len() > 0 {
        let last = state.directories.last();
        let task = DownloadTask::SetMetadata {
            path: last.path,
            mode: last.mode,
            mtime: last.mtime,
        };
        (
            DownloadState {
                directories: state.directories.drop_last(),
                waiting: DownloadWait::Task(task),
                ..state
            },
            download_task_action(state.destination, task),
        )
    } else if state.sources.len() > 0 {
        let source = state.sources[0];
        if !path_valid(source) {
            download_ends(state, Err(path_refusal()))
        } else {
            (
                DownloadState {
                    sources: state.sources.drop_first(),
                    source,
                    waiting: DownloadWait::Manifest,
                    ..state
                },
                DownloadAction::Shell(manifest_command(source)),
            )
        }
    } else {
        download_ends(state, Ok(()))
    }
}

/// What a download does once it is known whether the sources go into the
/// destination.
pub open spec fn download_placed(state: DownloadState, multi: bool) -> DownloadStep {
    download_advance(
        DownloadState {
            multi,
            queue: if multi {
                seq![DownloadTask::MakeDirectory(state.destination)]
            } else {
                seq![]
            },
            ..state
        },
    )
}

/// What a download does with the manifest of a source.
pub open spec fn download_listed(state: DownloadState, output: Seq<u8>) -> DownloadStep {
    match (manifest(state.source, output), base_name(state.source)) {
        (Err(error), _) => download_ends(state, Err(error)),
        (_, None) => download_ends(state, Err("invalid remote path"@)),
        (Ok(entries), Some(base)) => {
            let root_is_directory = entries[0].kind == EntryKind::Directory;
            download_advance(
                DownloadState {
                    root_is_directory,
                    local_root: if state.multi || root_is_directory {
                        joined(state.destination, base)
                    } else {
                        state.destination
                    },
                    entries,
                    next: 0,
                    ..state
                },
            )
        },
    }
}

/// A download with a task in front of those that are left.
pub open spec fn download_ahead(
    state: DownloadState,
    task: DownloadTask<Seq<char>>,
) -> DownloadState {
    DownloadState { queue: seq![task] + state.queue, ..state }
}

/// What a download does with a task in front of those that are left.
pub open spec fn download_with(state: DownloadState, task: DownloadTask<Seq<char>>) -> DownloadStep {
    download_advance(download_ahead(state, task))
}

/// What a download does to put a link on the host: what is there makes way.
pub open spec fn download_link(
    state: DownloadState,
    target: Seq<char>,
    local: Seq<char>,
    taken: bool,
) -> DownloadStep {
    let link = DownloadTask::MakeLink { target, local };
    if taken {
        download_with(download_ahead(state, link), DownloadTask::RemoveFile(local))
    } else {
        download_with(state, link)
    }
}

/// A download at a step with a temporary file.
pub open spec fn download_temporary(
    state: DownloadState,
    step: PullStep,
    remote: Seq<char>,
    local: Seq<char>,
    temporary: Seq<char>,
) -> DownloadStep {
    (
        DownloadState {
            waiting: DownloadWait::Temporary { step, remote, local, temporary },
            ..state
        },
        match step {
            PullStep::Create => DownloadAction::CreateTemporary {
                path: temporary,
                mode: TEMPORARY_MODE,
            },
            PullStep::Fetch => DownloadAction::Fetch { remote, temporary },
            PullStep::Sync => DownloadAction::Sync(temporary),
            PullStep::Replace => DownloadAction::Replace { temporary, local },
        },
    )
}

/// A download that removes a temporary file.
pub open spec fn download_clears(
    state: DownloadState,
    temporary: Seq<char>,
    outcome: Result<(), Seq<char>>,
) -> DownloadStep {
    (
        DownloadState { waiting: DownloadWait::Clear { temporary, outcome }, ..state },
        DownloadAction::RemoveTemporary(temporary),
    )
}

/// How the download of a file goes on once a step with its temporary file is done.
pub open spec fn download_stepped(
    state: DownloadState,
    step: PullStep,
    remote: Seq<char>,
    local: Seq<char>,
    temporary: Seq<char>,
) -> DownloadStep {
    match step {
        PullStep::Create => download_temporary(state, PullStep::Fetch, remote, local, temporary),
        PullStep::Fetch => download_temporary(state, PullStep::Sync, remote, local, temporary),
        PullStep::Sync => download_temporary(state, PullStep::Replace, remote, local, temporary),
        PullStep::Replace => download_clears(state, temporary, Ok(())),
    }
}

/// The first of these paths, from one on, that is a link.
pub open spec fn first_link(paths: Seq<Seq<char>>, links: Seq<bool>, from: int) -> Option<Seq<char>>
    decreases links.len() - from,
{
    if from >= links.len() {
        None
    } else if links[from] {
        Some(paths[from])
    } else {
        first_link(paths, links, from + 1)
    }
}

/// The root of a download to a destination that is, or is not, a directory.
pub open spec fn download_root(destination: Seq<char>, directory: bool) -> Seq<char> {
    if directory {
        destination
    } else {
        match parent(destination) {
            Some(above) => above,
            None => "."@,
        }
    }
}

/// Whether an answer is one that a download can get.
pub open spec fn download_fits(wait: DownloadWait<Seq<char>>, event: Answered) -> bool {
    match wait {
        DownloadWait::Destination => event is Answer,
        DownloadWait::Manifest => event is Output || event is Failed,
        DownloadWait::Task(DownloadTask::Print(_)) => event is Done,
        DownloadWait::Task(DownloadTask::AskDirectory { .. }) => event is Answer,
        DownloadWait::Task(DownloadTask::Inspect { root, local, directory }) => match event {
            DownloadEvent::Links(links) => links.len() == download_ancestors(
                root,
                local,
                directory,
            ).len(),
            _ => false,
        },
        DownloadWait::Task(DownloadTask::ReadLink { .. }) => event is Output || event is Failed,
        DownloadWait::Task(DownloadTask::AskPlace { .. }) => event is Answer,
        DownloadWait::Task(DownloadTask::Pull { .. }) => event is Bits || event is Failed,
        DownloadWait::Task(_) => event is Done || event is Failed,
        DownloadWait::Temporary { step, .. } => event is Done || event is Failed || (event is Taken
            && step == PullStep::Create),
        DownloadWait::Clear { .. } => event is Done || event is Failed,
        DownloadWait::Over => false,
    }
}

/// How a download goes on after an answer.
pub open spec fn download_next(state: DownloadState, event: Answered) -> DownloadStep {
    match (state.waiting, event) {
        (DownloadWait::Clear { outcome: Ok(()), .. }, _) => download_advance(state),
        (DownloadWait::Clear { outcome: Err(error), .. }, _) => download_ends(state, Err(error)),
        (
            DownloadWait::Temporary { step, temporary, .. },
            DownloadEvent::Failed(error),
        ) => if step == PullStep::Create {
            download_ends(state, Err(error))
        } else {
            download_clears(state, temporary, Err(error))
        },
        (DownloadWait::Temporary { remote, local, .. }, DownloadEvent::Taken) => download_with(
            state,
            DownloadTask::Pull { remote, local },
        ),
        (DownloadWait::Temporary { step, remote, local, temporary }, _) => download_stepped(
            state,
            step,
            remote,
            local,
            temporary,
        ),
        (_, DownloadEvent::Failed(error)) => download_ends(state, Err(error)),
        (
            DownloadWait::Task(DownloadTask::Pull { remote, local }),
            DownloadEvent::Bits(high, low),
        ) => download_temporary(
            state,
            PullStep::Create,
            remote,
            local,
            beside(local, partial_file(high, low)),
        ),
        (DownloadWait::Destination, DownloadEvent::Answer(yes)) => download_placed(state, yes),
        (DownloadWait::Manifest, DownloadEvent::Output(output)) => download_listed(state, output),
        (
            DownloadWait::Task(DownloadTask::AskDirectory { local, directory }),
            DownloadEvent::Answer(yes),
        ) => download_with(
            state,
            DownloadTask::Inspect { root: download_root(state.destination, yes), local, directory },
        ),
        (
            DownloadWait::Task(DownloadTask::Inspect { root, local, directory }),
            DownloadEvent::Links(links),
        ) => match first_link(download_ancestors(root, local, directory), links, 0) {
            Some(path) => download_ends(
                state,
                Err("refusing to traverse download symlink: "@ + path),
            ),
            None => download_advance(state),
        },
        (
            DownloadWait::Task(DownloadTask::ReadLink { local, .. }),
            DownloadEvent::Output(output),
        ) => if valid_utf8(output) {
            download_with(
                state,
                DownloadTask::AskPlace { target: trim_end(decode_utf8(output)), local },
            )
        } else {
            download_ends(state, Err(utf8_complaint(output)))
        },
        (
            DownloadWait::Task(DownloadTask::AskPlace { target, local }),
            DownloadEvent::Answer(taken),
        ) => download_link(state, target, local, taken),
        _ => download_advance(state),
    }
}

/// How a download begins.
pub open spec fn download_begin(request: Transfer) -> Result<DownloadStep, Seq<char>> {
    let paths = request.paths;
    if paths.len() < 2 {
        Err("pull requires at least one source and a destination"@)
    } else {
        let state = DownloadState {
            options: request.options,
            destination: paths.last(),
            multi: false,
            sources: paths.drop_last(),
            source: seq![],
            root_is_directory: false,
            local_root: seq![],
            entries: seq![],
            next: 0,
            directories: seq![],
            queue: seq![],
            waiting: DownloadWait::Destination,
        };
        if paths.len() > 2 {
            Ok(download_placed(state, true))
        } else {
            Ok((state, DownloadAction::IsDirectory(paths.last())))
        }
    }
}

/// Copies a task.
fn copy_download_task(task: &DownloadTask<String>) -> (copy: DownloadTask<String>)
    ensures
        download_task_view(copy) == download_task_view(*task),
{
    match task {
        DownloadTask::Print(line) => DownloadTask::Print(copy_text(line)),
        DownloadTask::AskDirectory { local, directory } => DownloadTask::AskDirectory {
            local: copy_text(local),
            directory: *directory,
        },
        DownloadTask::Inspect { root, local, directory } => DownloadTask::Inspect {
            root: copy_text(root),
            local: copy_text(local),
            directory: *directory,
        },
        DownloadTask::MakeDirectory(path) => DownloadTask::MakeDirectory(copy_text(path)),
        DownloadTask::ReadLink { remote, local } => DownloadTask::ReadLink {
            remote: copy_text(remote),
            local: copy_text(local),
        },
        DownloadTask::AskPlace { target, local } => DownloadTask::AskPlace {
            target: copy_text(target),
            local: copy_text(local),
        },
        DownloadTask::RemoveFile(path) => DownloadTask::RemoveFile(copy_text(path)),
        DownloadTask::MakeLink { target, local } => DownloadTask::MakeLink {
            target: copy_text(target),
            local: copy_text(local),
        },
        DownloadTask::Pull { remote, local } => DownloadTask::Pull {
            remote: copy_text(remote),
            local: copy_text(local),
        },
        DownloadTask::SetMetadata { path, mode, mtime } => DownloadTask::SetMetadata {
            path: copy_text(path),
            mode: *mode,
            mtime: *mtime,
        },
    }
}

/// Copies what a download waits for.
fn copy_download_wait(wait: &DownloadWait<String>) -> (copy: DownloadWait<String>)
    ensures
        download_wait_view(copy) == download_wait_view(*wait),
{
    match wait {
        DownloadWait::Destination => DownloadWait::Destination,
        DownloadWait::Manifest => DownloadWait::Manifest,
        DownloadWait::Task(task) => DownloadWait::Task(copy_download_task(task)),
        DownloadWait::Temporary { step, remote, local, temporary } => DownloadWait::Temporary {
            step: *step,
            remote: copy_text(remote),
            local: copy_text(local),
            temporary: copy_text(temporary),
        },
        DownloadWait::Clear { temporary, outcome } => DownloadWait::Clear {
            temporary: copy_text(temporary),
            outcome: match outcome {
                Ok(()) => Ok(()),
                Err(error) => Err(copy_text(error)),
            },
        },
        DownloadWait::Over => DownloadWait::Over,
    }
}

/// Finds the first of these paths that is a link.
fn find_link(paths: &[String], links: &[bool]) -> (found: Option<String>)
    requires
        paths@.len() == links@.len(),
    ensures
        match found {
            Some(path) => first_link(texts(paths@), links@, 0) == Some(path@),
            None => first_link(texts(paths@), links@, 0) is None,
        },
{
    let ghost all = texts(paths@);
    let mut i: usize = 0;
    while i < links.len()
        invariant
            i <= links@.len(),
            paths@.len() == links@.len(),
            all == texts(paths@),
            first_link(all, links@, 0) == first_link(all, links@, i as int),
        decreases links@.len() - i,
    {
        if links[i] {
            assert(all[i as int] == paths@[i as int]@);
            return Some(copy_text(&paths[i]));
        }
        i = i + 1;
    }
    None
}

/// Builds the action of a task.
fn act(destination: &str, task: &DownloadTask<String>) -> (action: DownloadAction<
    String,
    Vec<String>,
>)
    ensures
        download_action_view(action) == download_task_action(
            destination@,
            download_task_view(*task),
        ),
{
    match task {
        DownloadTask::Print(line) => DownloadAction::Print(copy_text(line)),
        DownloadTask::AskDirectory { .. } => DownloadAction::IsDirectory(copy_text(destination)),
        DownloadTask::Inspect { root, local, directory } => DownloadAction::AreLinks(
            check_pull_ancestors(root, local, *directory),
        ),
        DownloadTask::MakeDirectory(path) => DownloadAction::MakeDirectory(copy_text(path)),
        DownloadTask::ReadLink { remote, .. } => DownloadAction::Shell(
            plus(copy_text("readlink -- "), &shell_quote(remote)),
        ),
        DownloadTask::AskPlace { local, .. } => DownloadAction::Exists(copy_text(local)),
        DownloadTask::RemoveFile(path) => DownloadAction::RemoveFile(copy_text(path)),
        DownloadTask::MakeLink { target, local } => DownloadAction::MakeLink {
            target: copy_text(target),
            local: copy_text(local),
        },
        DownloadTask::Pull { .. } => DownloadAction::DrawBits,
        DownloadTask::SetMetadata { path, mode, mtime } => DownloadAction::SetMetadata {
            path: copy_text(path),
            mode: *mode,
            mtime: *mtime,
        },
    }
}

/// The time of an entry, for the host.
fn clamp_time(mtime: i64) -> (time: u64)
    ensures
        time == host_time(mtime),
{
    if mtime < 0 {
        0
    } else {
        mtime as u64
    }
}

impl Download {
    /// What the download is.
    pub closed spec fn view(&self) -> DownloadState {
        DownloadState {
            options: self.options,
            destination: self.destination@,
            multi: self.multi,
            sources: texts(self.sources@),
            source: self.source@,
            root_is_directory: self.root_is_directory,
            local_root: self.local_root@,
            entries: entry_views(self.entries@),
            next: self.next as int,
            directories: made_views(self.directories@),
            queue: download_task_views(self.queue@),
            waiting: download_wait_view(self.waiting),
        }
    }

    /// The next entry is not behind the end.
    pub open spec fn wf(&self) -> bool {
        0 <= self@.next <= self@.entries.len()
    }

    /// Begins a download.
    pub fn begin(request: TransferRequest) -> (begun: Result<
        (Download, DownloadAction<String, Vec<String>>),
        String,
    >)
        ensures
            match download_begin(request@) {
                Ok((state, action)) => begun is Ok && begun->Ok_0.0.wf() && begun->Ok_0.0@ == state
                    && download_action_view(begun->Ok_0.1) == action,
                Err(error) => complains(begun, error),
            },
    {
        let ghost paths = texts(request.paths@);
        assert(paths.len() == request.paths@.len());
        if request.paths.len() < 2 {
            return Err(copy_text("pull requires at least one source and a destination"));
        }
        let mut sources: Vec<String> = request.paths;
        let destination: String = match sources.pop() {
            Some(path) => path,
            None => String::new(),
        };
        proof {
            assert(texts(sources@) =~= paths.drop_last());
            assert(destination@ == paths.last());
        }
        let several = sources.len() > 1;
        let place: String = copy_text(&destination);
        let download = Download {
            options: request.options,
            destination,
            multi: false,
            sources,
            source: String::new(),
            root_is_directory: false,
            local_root: String::new(),
            entries: Vec::new(),
            next: 0,
            directories: Vec::new(),
            queue: Vec::new(),
            waiting: DownloadWait::Destination,
        };
        proof {
            assert(download@.source =~= seq![]);
            assert(download@.local_root =~= seq![]);
            assert(download@.entries =~= seq![]);
            assert(download@.directories =~= seq![]);
            assert(download@.queue =~= seq![]);
        }
        if several {
            Ok(download.place(true))
        } else {
            Ok((download, DownloadAction::IsDirectory(place)))
        }
    }

    /// Ends the download.
    fn end(self, result: Result<(), String>) -> (ended: (
        Download,
        DownloadAction<String, Vec<String>>,
    ))
        requires
            self.wf(),
        ensures
            ended.0.wf(),
            (ended.0@, download_action_view(ended.1)) == download_ends(
                self@,
                outcome_view(result),
            ),
    {
        let mut download = self;
        download.waiting = DownloadWait::Over;
        (download, DownloadAction::Finish(result))
    }

    /// Does the first task that is left.
    fn start_task(self) -> (next: (Download, DownloadAction<String, Vec<String>>))
        requires
            self.wf(),
            self@.queue.len() > 0,
        ensures
            next.0.wf(),
            (next.0@, download_action_view(next.1)) == download_task(self@),
    {
        let mut download = self;
        let ghost state = download@;
        assert(download_task_views(download.queue@).len() == download.queue@.len());
        let task: DownloadTask<String> = download.queue.remove(0);
        proof {
            assert(download_task_view(task) == state.queue[0]);
            assert(download_task_views(download.queue@) =~= state.queue.drop_first());
        }
        let action: DownloadAction<String, Vec<String>> = act(&download.destination, &task);
        download.waiting = DownloadWait::Task(task);
        (download, action)
    }

    /// Builds the tasks for an entry.
    fn plan(&self, entry: &RemoteEntry<String>, local: &str) -> (tasks: Vec<DownloadTask<String>>)
        ensures
            download_task_views(tasks@) == download_tasks(self@, entry_view(*entry), local@),
    {
        let directory = entry.kind == EntryKind::Directory;
        let mut tasks: Vec<DownloadTask<String>> = Vec::new();
        if !self.options.quiet {
            tasks.push(
                DownloadTask::Print(plus(plus(copy_text(&entry.path), " -> "), local)),
            );
        }
        if self.multi || self.root_is_directory {
            tasks.push(
                DownloadTask::Inspect {
                    root: copy_text(&self.destination),
                    local: copy_text(local),
                    directory,
                },
            );
        } else {
            tasks.push(DownloadTask::AskDirectory { local: copy_text(local), directory });
        }
        match entry.kind {
            EntryKind::Directory => {
                tasks.push(DownloadTask::MakeDirectory(copy_text(local)));
            },
            EntryKind::Link => {
                if let Some(above) = parent_of(local) {
                    tasks.push(DownloadTask::MakeDirectory(above));
                }
                tasks.push(
                    DownloadTask::ReadLink {
                        remote: copy_text(&entry.path),
                        local: copy_text(local),
                    },
                );
            },
            EntryKind::File => {
                if let Some(above) = parent_of(local) {
                    tasks.push(DownloadTask::MakeDirectory(above));
                }
                tasks.push(
                    DownloadTask::Pull { remote: copy_text(&entry.path), local: copy_text(local) },
                );
                if self.options.archive {
                    tasks.push(
                        DownloadTask::SetMetadata {
                            path: copy_text(local),
                            mode: entry.mode % 4096,
                            mtime: clamp_time(entry.mtime),
                        },
                    );
                }
            },
        }
        assert(download_task_views(tasks@) =~= download_tasks(self@, entry_view(*entry), local@));
        tasks
    }

    /// Does what comes next.
    fn advance(self) -> (next: (Download, DownloadAction<String, Vec<String>>))
        requires
            self.wf(),
        ensures
            next.0.wf(),
            (next.0@, download_action_view(next.1)) == download_advance(self@),
    {
        let mut download = self;
        let ghost state = download@;
        assert(download_task_views(download.queue@).len() == download.queue@.len());
        assert(entry_views(download.entries@).len() == download.entries@.len());
        assert(texts(download.sources@).len() == download.sources@.len());
        assert(made_views(download.directories@).len() == download.directories@.len());
        if download.queue.len() > 0 {
            return download.start_task();
        }
        if download.next < download.entries.len() {
            let entry: &RemoteEntry<String> = &download.entries[download.next];
            assert(state.entries[state.next] == entry_view(*entry));
            let rest: String = match safe_relative_remote_path(&download.source, &entry.path) {
                Ok(rest) => rest,
                Err(error) => {
                    return download.end(Err(error));
                },
            };
            let local: String = if empty_text(&rest) {
                copy_text(&download.local_root)
            } else {
                join_path(&download.local_root, &rest)
            };
            let queue: Vec<DownloadTask<String>> = download.plan(entry, &local);
            let kind: EntryKind = entry.kind;
            let mode: u32 = entry.mode % 4096;
            let mtime: u64 = clamp_time(entry.mtime);
            download.queue = queue;
            download.next = download.next + 1;
            if kind == EntryKind::Directory && download.options.archive {
                let ghost before = made_views(download.directories@);
                let ghost place = local@;
                download.directories.push(MadeDirectory { path: local, mode, mtime });
                assert(made_views(download.directories@) =~= before.push(
                    MadeDirectory { path: place, mode, mtime },
                ));
            }
            return download.start_task();
        }
        if download.directories.len() > 0 {
            let last: Option<MadeDirectory<String>> = download.directories.pop();
            assert(made_views(download.directories@) =~= state.directories.drop_last());
            if let Some(made) = last {
                assert(state.directories.last() == (MadeDirectory {
                    path: made.path@,
                    mode: made.mode,
                    mtime: made.mtime,
                }));
                let task = DownloadTask::SetMetadata {
                    path: made.path,
                    mode: made.mode,
                    mtime: made.mtime,
                };
                let action: DownloadAction<String, Vec<String>> = act(
                    &download.destination,
                    &task,
                );
                download.waiting = DownloadWait::Task(task);
                return (download, action);
            }
        }
        if download.sources.len() > 0 {
            assert(state.sources[0] == download.sources@[0]@);
            match validate_transfer_path(&download.sources[0]) {
                Ok(()) => {},
                Err(error) => return download.end(Err(error)),
            }
            let source: String = download.sources.remove(0);
            assert(texts(download.sources@) =~= state.sources.drop_first());
            let action = DownloadAction::Shell(manifest_script(&source));
            download.source = source;
            download.waiting = DownloadWait::Manifest;
            return (download, action);
        }
        download.end(Ok(()))
    }

    /// Goes on once it is known whether the sources go into the destination.
    fn place(self, multi: bool) -> (next: (Download, DownloadAction<String, Vec<String>>))
        requires
            self.wf(),
        ensures
            next.0.wf(),
            (next.0@, download_action_view(next.1)) == download_placed(self@, multi),
    {
        let mut download = self;
        download.multi = multi;
        let mut queue: Vec<DownloadTask<String>> = Vec::new();
        if multi {
            queue.push(DownloadTask::MakeDirectory(copy_text(&download.destination)));
        }
        download.queue = queue;
        proof {
            let planned: Seq<DownloadTask<Seq<char>>> = if multi {
                seq![DownloadTask::MakeDirectory(self@.destination)]
            } else {
                seq![]
            };
            assert(download@.queue =~= planned);
        }
        download.advance()
    }

    /// Goes on with the manifest of a source.
    fn listed(self, output: &[u8]) -> (next: (Download, DownloadAction<String, Vec<String>>))
        requires
            self.wf(),
        ensures
            next.0.wf(),
            (next.0@, download_action_view(next.1)) == download_listed(self@, output@),
    {
        let entries: Vec<RemoteEntry<String>> = match remote_manifest(&self.source, output) {
            Ok(entries) => entries,
            Err(error) => return self.end(Err(error)),
        };
        let base: String = match file_name(&self.source) {
            Some(base) => base,
            None => return self.end(Err(copy_text("invalid remote path"))),
        };
        let ghost said = entry_views(entries@);
        assert(said.len() == entries@.len());
        assert(said[0] == entry_view(entries@[0]));
        let root_is_directory = entries[0].kind == EntryKind::Directory;
        let mut download = self;
        download.root_is_directory = root_is_directory;
        download.local_root = if download.multi || root_is_directory {
            join_path(&download.destination, &base)
        } else {
            copy_text(&download.destination)
        };
        download.entries = entries;
        download.next = 0;
        download.advance()
    }

    /// Puts a task in front of those that are left.
    fn ahead(self, task: DownloadTask<String>) -> (download: Download)
        requires
            self.wf(),
        ensures
            download.wf(),
            download@ == download_ahead(self@, download_task_view(task)),
    {
        let mut download = self;
        let ghost before = download_task_views(download.queue@);
        let ghost said = download_task_view(task);
        download.queue.insert(0, task);
        assert(download_task_views(download.queue@) =~= seq![said] + before);
        download
    }

    /// Goes on with a task in front of those that are left.
    fn with(self, task: DownloadTask<String>) -> (next: (
        Download,
        DownloadAction<String, Vec<String>>,
    ))
        requires
            self.wf(),
        ensures
            next.0.wf(),
            (next.0@, download_action_view(next.1)) == download_with(
                self@,
                download_task_view(task),
            ),
    {
        self.ahead(task).advance()
    }

    /// Puts a link on the host, where what is there makes way.
    fn link(self, target: String, local: String, taken: bool) -> (next: (
        Download,
        DownloadAction<String, Vec<String>>,
    ))
        requires
            self.wf(),
        ensures
            next.0.wf(),
            (next.0@, download_action_view(next.1)) == download_link(
                self@,
                target@,
                local@,
                taken,
            ),
    {
        if taken {
            let place: String = copy_text(&local);
            let linked = self.ahead(DownloadTask::MakeLink { target, local });
            linked.with(DownloadTask::RemoveFile(place))
        } else {
            self.with(DownloadTask::MakeLink { target, local })
        }
    }

    /// Takes a step with a temporary file.
    fn temporary(
        self,
        step: PullStep,
        remote: String,
        local: String,
        temporary: String,
    ) -> (next: (Download, DownloadAction<String, Vec<String>>))
        requires
            self.wf(),
        ensures
            next.0.wf(),
            (next.0@, download_action_view(next.1)) == download_temporary(
                self@,
                step,
                remote@,
                local@,
                temporary@,
            ),
    {
        let action: DownloadAction<String, Vec<String>> = match step {
            PullStep::Create => DownloadAction::CreateTemporary {
                path: copy_text(&temporary),
                mode: TEMPORARY_MODE,
            },
            PullStep::Fetch => DownloadAction::Fetch {
                remote: copy_text(&remote),
                temporary: copy_text(&temporary),
            },
            PullStep::Sync => DownloadAction::Sync(copy_text(&temporary)),
            PullStep::Replace => DownloadAction::Replace {
                temporary: copy_text(&temporary),
                local: copy_text(&local),
            },
        };
        let mut download = self;
        download.waiting = DownloadWait::Temporary { step, remote, local, temporary };
        (download, action)
    }

    /// Removes a temporary file.
    fn clear(self, temporary: String, outcome: Result<(), String>) -> (next: (
        Download,
        DownloadAction<String, Vec<String>>,
    ))
        requires
            self.wf(),
        ensures
            next.0.wf(),
            (next.0@, download_action_view(next.1)) == download_clears(
                self@,
                temporary@,
                outcome_view(outcome),
            ),
    {
        let action: DownloadAction<String, Vec<String>> = DownloadAction::RemoveTemporary(
            copy_text(&temporary),
        );
        let mut download = self;
        download.waiting = DownloadWait::Clear { temporary, outcome };
        (download, action)
    }

    /// Goes on after an answer.
    pub fn on_event(self, event: DownloadEvent<String, Vec<u8>, Vec<bool>>) -> (next: (
        Download,
        DownloadAction<String, Vec<String>>,
    ))
        requires
            self.wf(),
            download_fits(self@.waiting, download_event_view(event)),
        ensures
            next.0.wf(),
            (next.0@, download_action_view(next.1)) == download_next(
                self@,
                download_event_view(event),
            ),
    {
        let waiting: DownloadWait<String> = copy_download_wait(&self.waiting);
        assert(download_wait_view(waiting) == self@.waiting);
        match (waiting, event) {
            (DownloadWait::Clear { outcome: Ok(()), .. }, _) => self.advance(),
            (DownloadWait::Clear { outcome: Err(error), .. }, _) => self.end(Err(error)),
            (DownloadWait::Temporary { step, temporary, .. }, DownloadEvent::Failed(error)) => {
                if step == PullStep::Create {
                    self.end(Err(error))
                } else {
                    self.clear(temporary, Err(error))
                }
            },
            (DownloadWait::Temporary { remote, local, .. }, DownloadEvent::Taken) => self.with(
                DownloadTask::Pull { remote, local },
            ),
            (DownloadWait::Temporary { step, remote, local, temporary }, _) => match step {
                PullStep::Create => self.temporary(PullStep::Fetch, remote, local, temporary),
                PullStep::Fetch => self.temporary(PullStep::Sync, remote, local, temporary),
                PullStep::Sync => self.temporary(PullStep::Replace, remote, local, temporary),
                PullStep::Replace => self.clear(temporary, Ok(())),
            },
            (_, DownloadEvent::Failed(error)) => self.end(Err(error)),
            (
                DownloadWait::Task(DownloadTask::Pull { remote, local }),
                DownloadEvent::Bits(high, low),
            ) => {
                let temporary: String = with_file_name(&local, &partial_name(high, low));
                self.temporary(PullStep::Create, remote, local, temporary)
            },
            (DownloadWait::Destination, DownloadEvent::Answer(yes)) => self.place(yes),
            (DownloadWait::Manifest, DownloadEvent::Output(output)) => self.listed(&output),
            (
                DownloadWait::Task(DownloadTask::AskDirectory { local, directory }),
                DownloadEvent::Answer(yes),
            ) => {
                let root: String = if yes {
                    copy_text(&self.destination)
                } else {
                    match parent_of(&self.destination) {
                        Some(above) => above,
                        None => copy_text("."),
                    }
                };
                self.with(DownloadTask::Inspect { root, local, directory })
            },
            (
                DownloadWait::Task(DownloadTask::Inspect { root, local, directory }),
                DownloadEvent::Links(links),
            ) => {
                let paths: Vec<String> = check_pull_ancestors(&root, &local, directory);
                assert(texts(paths@).len() == paths@.len());
                match find_link(&paths, &links) {
                    Some(path) => self.end(
                        Err(plus(copy_text("refusing to traverse download symlink: "), &path)),
                    ),
                    None => self.advance(),
                }
            },
            (
                DownloadWait::Task(DownloadTask::ReadLink { local, .. }),
                DownloadEvent::Output(output),
            ) => match decode(&output) {
                Ok(text) => {
                    let chars: Vec<char> = chars_of(&text);
                    let target: String = string_of(trimmed_end(chars.as_slice()));
                    self.with(DownloadTask::AskPlace { target, local })
                },
                Err(complaint) => self.end(Err(complaint)),
            },
            (
                DownloadWait::Task(DownloadTask::AskPlace { target, local }),
                DownloadEvent::Answer(taken),
            ) => self.link(target, local, taken),
            _ => self.advance(),
        }
    }
}

/// Before anything is put at a place for an entry, the paths above the place are
/// looked at: the first task that is not a line to print is to look, or to ask
/// where from.
pub proof fn links_are_looked_for_first(
    state: DownloadState,
    entry: RemoteEntry<Seq<char>>,
    local: Seq<char>,
)
    ensures
        ({
            let tasks = download_tasks(state, entry, local);
            let first: int = if state.options.quiet {
                0
            } else {
                1
            };
            &&& tasks.len() > first + 1
            &&& forall|i: int| 0 <= i < first ==> (#[trigger] tasks[i]) is Print
            &&& tasks[first] is Inspect || tasks[first] is AskDirectory
        }),
{
}

/// The first link is found, where there is one.
proof fn lemma_first_link(paths: Seq<Seq<char>>, links: Seq<bool>, from: int, found: int)
    requires
        0 <= from <= found < links.len(),
        links[found],
        forall|i: int| from <= i < found ==> !(#[trigger] links[i]),
    ensures
        first_link(paths, links, from) == Some(paths[found]),
    decreases found - from,
{
    if from < found {
        lemma_first_link(paths, links, from + 1, found);
    }
}

/// Where there is no link, none is found.
proof fn lemma_no_link(paths: Seq<Seq<char>>, links: Seq<bool>, from: int)
    requires
        0 <= from <= links.len(),
        forall|i: int| from <= i < links.len() ==> !(#[trigger] links[i]),
    ensures
        first_link(paths, links, from) is None,
    decreases links.len() - from,
{
    if from < links.len() {
        lemma_no_link(paths, links, from + 1);
    }
}

/// A link above the place of an entry ends the download, with the first of them
/// named; without one the download goes on.
pub proof fn links_are_not_followed(
    state: DownloadState,
    root: Seq<char>,
    local: Seq<char>,
    directory: bool,
    links: Seq<bool>,
    found: int,
)
    requires
        state.waiting == DownloadWait::Task(DownloadTask::Inspect { root, local, directory }),
        links.len() == download_ancestors(root, local, directory).len(),
        0 <= found <= links.len(),
        forall|i: int| 0 <= i < found ==> !(#[trigger] links[i]),
        found < links.len() ==> links[found],
    ensures
        download_next(state, DownloadEvent::Links(links)) == (if found < links.len() {
            download_ends(
                state,
                Err(
                    "refusing to traverse download symlink: "@ + download_ancestors(
                        root,
                        local,
                        directory,
                    )[found],
                ),
            )
        } else {
            download_advance(state)
        }),
{
    let paths = download_ancestors(root, local, directory);
    if found < links.len() {
        lemma_first_link(paths, links, 0, found);
    } else {
        lemma_no_link(paths, links, 0);
    }
}

/// An entry whose path leaves its source ends the download before anything is done
/// for it.
pub proof fn unsafe_entries_end_the_download(state: DownloadState)
    requires
        state.queue.len() == 0,
        0 <= state.next < state.entries.len(),
        safe_relative(state.source, state.entries[state.next].path) is Err,
    ensures
        download_advance(state) == download_ends(
            state,
            Err(safe_relative(state.source, state.entries[state.next].path)->Err_0),
        ),
{
}

/// A file is put in place only once it is whole: the step before was to bring the
/// same temporary file to the disk, the one before that to fill it with what the
/// device sent, and the one before that to create it. Each of them was done.
pub proof fn only_whole_files_are_put_in_place(state: DownloadState, event: Answered)
    requires
        download_fits(state.waiting, event),
    ensures
        ({
            let (next, action) = download_next(state, event);
            &&& action matches DownloadAction::Replace { temporary, local } ==> {
                &&& event is Done
                &&& state.waiting matches DownloadWait::Temporary { step, remote, .. }
                    && state.waiting == (DownloadWait::Temporary {
                    step: PullStep::Sync,
                    remote,
                    local,
                    temporary,
                })
            }
            &&& next.waiting matches DownloadWait::Temporary { step, remote, local, temporary } ==> {
                &&& (next, action) == download_temporary(next, step, remote, local, temporary)
                &&& step == PullStep::Replace ==> event is Done && state.waiting == (
                DownloadWait::Temporary { step: PullStep::Sync, remote, local, temporary })
                &&& step == PullStep::Sync ==> event is Done && state.waiting == (
                DownloadWait::Temporary { step: PullStep::Fetch, remote, local, temporary })
                &&& step == PullStep::Fetch ==> event is Done && state.waiting == (
                DownloadWait::Temporary { step: PullStep::Create, remote, local, temporary })
            }
        }),
{
}

/// A temporary file is new, private, and beside the place of its file under a name
/// made of the bits that were drawn. A name that is taken makes other bits be drawn.
pub proof fn temporaries_are_new_and_private(
    state: DownloadState,
    remote: Seq<char>,
    local: Seq<char>,
    high: u64,
    low: u64,
)
    requires
        state.waiting == DownloadWait::Task(DownloadTask::Pull { remote, local }),
    ensures
        ({
            let (next, action) = download_next(state, DownloadEvent::Bits(high, low));
            let again = download_next(next, DownloadEvent::Taken);
            &&& action == DownloadAction::<Seq<char>, Seq<Seq<char>>>::CreateTemporary {
                path: beside(local, partial_file(high, low)),
                mode: 0o600,
            }
            &&& again.0 =~= state
            &&& again.1 is DrawBits
        }),
{
    let next = download_next(state, DownloadEvent::Bits(high, low)).0;
    let again = download_ahead(next, DownloadTask::Pull { remote, local });
    assert(again.queue[0] == (DownloadTask::Pull { remote, local }));
    assert(again.queue.drop_first() =~= state.queue);
}

/// A download of a file that fails after the temporary file was created has that
/// file removed, and then ends with the failure, whether or not the removal worked.
pub proof fn failed_downloads_are_cleared(
    state: DownloadState,
    step: PullStep,
    remote: Seq<char>,
    local: Seq<char>,
    temporary: Seq<char>,
    error: Seq<char>,
    event: Answered,
)
    requires
        state.waiting == (DownloadWait::Temporary { step, remote, local, temporary }),
        step != PullStep::Create,
    ensures
        ({
            let (next, action) = download_next(state, DownloadEvent::Failed(error));
            &&& action == DownloadAction::<Seq<char>, Seq<Seq<char>>>::RemoveTemporary(temporary)
            &&& download_fits(next.waiting, event) ==> download_next(next, event) == download_ends(
                next,
                Err(error),
            )
        }),
{
}

/// Once a file is in place its temporary path is cleared as well, and the download
/// goes on, whether or not there was something to remove.
pub proof fn finished_downloads_are_cleared(
    state: DownloadState,
    remote: Seq<char>,
    local: Seq<char>,
    temporary: Seq<char>,
    event: Answered,
)
    requires
        state.waiting == (DownloadWait::Temporary {
            step: PullStep::Replace,
            remote,
            local,
            temporary,
        }),
    ensures
        ({
            let (next, action) = download_next(state, DownloadEvent::Done);
            &&& action == DownloadAction::<Seq<char>, Seq<Seq<char>>>::RemoveTemporary(temporary)
            &&& download_fits(next.waiting, event) ==> download_next(next, event)
                == download_advance(next)
        }),
{
}

/// The temporary file that was created and not yet removed, if any.
pub open spec fn unfinished(waiting: DownloadWait<Seq<char>>) -> Option<Seq<char>> {
    match waiting {
        DownloadWait::Temporary { step, temporary, .. } => if step == PullStep::Create {
            None
        } else {
            Some(temporary)
        },
        DownloadWait::Clear { temporary, .. } => Some(temporary),
        _ => None,
    }
}

/// No temporary file is forgotten: whatever happens, it stays the one that is worked
/// on until its removal was asked for. So a download is over only after that.
pub proof fn no_temporary_is_forgotten(state: DownloadState, event: Answered)
    requires
        download_fits(state.waiting, event),
        unfinished(state.waiting) is Some,
    ensures
        ({
            let (next, action) = download_next(state, event);
            state.waiting is Clear || (unfinished(next.waiting) == unfinished(state.waiting)
                && !(action is Finish) && (next.waiting is Clear ==> action
                == DownloadAction::<Seq<char>, Seq<Seq<char>>>::RemoveTemporary(
                unfinished(state.waiting)->0,
            )))
        }),
{
}

/// What the files of the host hold once a step of the download of a file was answered.
/// A fetch may leave anything in the temporary file, whether or not it failed.
pub open spec fn host_files(
    files: Map<Seq<char>, Seq<u8>>,
    action: DownloadAction<Seq<char>, Seq<Seq<char>>>,
    answer: Answered,
    fetched: Seq<u8>,
) -> Map<Seq<char>, Seq<u8>> {
    match action {
        DownloadAction::CreateTemporary { path, .. } => if answer is Done {
            files.insert(path, seq![])
        } else {
            files
        },
        DownloadAction::Fetch { temporary, .. } => files.insert(temporary, fetched),
        DownloadAction::Replace { temporary, local } => if answer is Done {
            files.remove(temporary).insert(local, files[temporary])
        } else {
            files
        },
        DownloadAction::RemoveTemporary(path) => if answer is Done {
            files.remove(path)
        } else {
            files
        },
        _ => files,
    }
}

/// A download, and what the files of the host hold, after answers.
pub open spec fn answered(
    step: DownloadStep,
    files: Map<Seq<char>, Seq<u8>>,
    answers: Seq<Answered>,
    fetched: Seq<u8>,
) -> (DownloadStep, Map<Seq<char>, Seq<u8>>)
    decreases answers.len(),
{
    if answers.len() == 0 {
        (step, files)
    } else {
        answered(
            download_next(step.0, answers[0]),
            host_files(files, step.1, answers[0], fetched),
            answers.drop_first(),
            fetched,
        )
    }
}

/// The answers to the download of a file of which a step fails: each step before it
/// is done, and so is the removal of the temporary file.
pub open spec fn failing(step: PullStep, error: Seq<char>) -> Seq<Answered> {
    match step {
        PullStep::Create => seq![DownloadEvent::Failed(error)],
        PullStep::Fetch => seq![
            DownloadEvent::Done,
            DownloadEvent::Failed(error),
            DownloadEvent::Done,
        ],
        PullStep::Sync => seq![
            DownloadEvent::Done,
            DownloadEvent::Done,
            DownloadEvent::Failed(error),
            DownloadEvent::Done,
        ],
        PullStep::Replace => seq![
            DownloadEvent::Done,
            DownloadEvent::Done,
            DownloadEvent::Done,
            DownloadEvent::Failed(error),
            DownloadEvent::Done,
        ],
    }
}

/// A download of a file that fails, at whichever step, leaves every file of the host
/// as it was, that at the place of the download too, and ends with the failure.
pub proof fn failed_downloads_change_no_file(
    state: DownloadState,
    step: PullStep,
    remote: Seq<char>,
    local: Seq<char>,
    temporary: Seq<char>,
    error: Seq<char>,
    files: Map<Seq<char>, Seq<u8>>,
    fetched: Seq<u8>,
)
    requires
        !files.contains_key(temporary),
    ensures
        ({
            let begun = download_temporary(state, PullStep::Create, remote, local, temporary);
            let (ended, left) = answered(begun, files, failing(step, error), fetched);
            &&& left == files
            &&& ended.0.waiting is Over
            &&& ended.1 == DownloadAction::<Seq<char>, Seq<Seq<char>>>::Finish(Err(error))
        }),
{
    reveal_with_fuel(answered, 6);
    let begun = download_temporary(state, PullStep::Create, remote, local, temporary);
    let answers = failing(step, error);
    let left = answered(begun, files, answers, fetched).1;
    assert(left =~= files);
}

/// A download of a file whose every step is done puts what was fetched at its place,
/// and leaves every other file of the host as it was. It does not matter whether the
/// temporary path, which is clear by then, could be cleared.
pub proof fn whole_files_take_their_place(
    state: DownloadState,
    remote: Seq<char>,
    local: Seq<char>,
    temporary: Seq<char>,
    cleared: Answered,
    files: Map<Seq<char>, Seq<u8>>,
    fetched: Seq<u8>,
)
    requires
        !files.contains_key(temporary),
        temporary != local,
        cleared is Done || cleared is Failed,
    ensures
        ({
            let begun = download_temporary(state, PullStep::Create, remote, local, temporary);
            let done: Answered = DownloadEvent::Done;
            let (ended, left) = answered(
                begun,
                files,
                seq![done, done, done, done, cleared],
                fetched,
            );
            &&& left == files.insert(local, fetched)
            &&& ended == download_advance(
                DownloadState {
                    waiting: DownloadWait::Clear { temporary, outcome: Ok(()) },
                    ..state
                },
            )
        }),
{
    reveal_with_fuel(answered, 6);
    let begun = download_temporary(state, PullStep::Create, remote, local, temporary);
    let done: Answered = DownloadEvent::Done;
    let answers = seq![done, done, done, done, cleared];
    let left = answered(begun, files, answers, fetched).1;
    assert(left =~= files.insert(local, fetched));
}

/// Nothing follows the end of a download: no entry that comes later is looked at.
pub proof fn nothing_follows_the_end(state: DownloadState, event: Answered, later: Answered)
    requires
        download_fits(state.waiting, event),
        download_next(state, event).1 is Finish,
    ensures
        !download_fits(download_next(state, event).0.waiting, later),
{
}

/// An entry goes to the place of its source or beneath it.
pub proof fn entries_stay_beneath(state: DownloadState, path: Seq<char>)
    requires
        safe_relative(state.source, path) is Ok,
    ensures
        ({
            let rest = safe_relative(state.source, path)->Ok_0;
            crate::paths::beneath(entry_local(state.local_root, rest), state.local_root)
        }),
{
    let rest = safe_relative(state.source, path)->Ok_0;
    if rest.len() > 0 {
        crate::paths::safe_paths_stay_beneath(state.source, path, state.local_root);
    } else {
        let names = crate::paths::components(state.local_root);
        assert(names =~= names.subrange(0, names.len() as int));
    }
}

/// The manifest of a source covers its whole tree: the command names the source alone, and
/// goes through all that is beneath it, without an option that would leave anything out.
pub proof fn manifests_cover_the_whole_tree(state: DownloadState)
    requires
        state.queue.len() == 0,
        state.next >= state.entries.len(),
        state.directories.len() == 0,
        state.sources.len() > 0,
        path_valid(state.sources[0]),
    ensures
        ({
            let source = state.sources[0];
            let (next, action) = download_advance(state);
            &&& action == DownloadAction::<Seq<char>, Seq<Seq<char>>>::Shell(
                "find "@ + shell_word(source)
                    + " -print | while IFS= read -r p; do if [ -L \"$p\" ]; then k=l; elif [ -d \"$p\" ]; then k=d; elif [ -f \"$p\" ]; then k=f; else k=o; fi; mode=$(stat -c '%a' -- \"$p\") || exit; mtime=$(stat -c '%Y' -- \"$p\") || exit; printf '%s\\t%s\\t%s\\t%s\\n' \"$k\" \"$mode\" \"$mtime\" \"$p\"; done"@,
            )
            &&& next.waiting is Manifest
            &&& next.source == source
            &&& next.sources == state.sources.skip(1)
        }),
{
}

/// A line of a manifest tells the kind, the mode in octal digits, the time and the path of
/// an entry, between tabs. Another kind is left out.
pub proof fn manifest_lines_are_read(
    letter: char,
    mode: u32,
    mtime: i64,
    path: Seq<char>,
)
    requires
        path_valid(path),
        letter != '\t',
    ensures
        ({
            let line = seq![letter] + seq!['\t'] + number(mode as nat, 8, 1) + seq!['\t']
                + signed_decimal(mtime as int) + seq!['\t'] + path;
            manifest_line(line) == Ok::<Option<RemoteEntry<Seq<char>>>, Seq<char>>(
                if letter == 'f' {
                    Some(RemoteEntry { kind: EntryKind::File, mode, mtime, path })
                } else if letter == 'd' {
                    Some(RemoteEntry { kind: EntryKind::Directory, mode, mtime, path })
                } else if letter == 'l' {
                    Some(RemoteEntry { kind: EntryKind::Link, mode, mtime, path })
                } else {
                    None
                },
            )
        }),
{
    reveal_strlit("-");
    let first = seq![letter];
    let second = number(mode as nat, 8, 1);
    let third = signed_decimal(mtime as int);
    let size: nat = if mtime < 0 {
        (-mtime) as nat
    } else {
        mtime as nat
    };
    numbers_are_read_back(mode as nat, 8, 1);
    numbers_are_read_back(size, 10, 1);
    signed_decimals_are_read_back(mtime as int);
    assert(!second.contains('\t')) by {
        if second.contains('\t') {
            let i = choose|i: int| 0 <= i < second.len() && second[i] == '\t';
            assert('0' <= second[i] <= '9' || 'a' <= second[i] <= 'f');
        }
    }
    assert(!third.contains('\t')) by {
        if third.contains('\t') {
            let i = choose|i: int| 0 <= i < third.len() && third[i] == '\t';
            let digits = decimal(size);
            if mtime < 0 {
                if i > 0 {
                    assert(third[i] == digits[i - 1]);
                }
            } else {
                assert(third[i] == digits[i]);
            }
        }
    }
    assert(!first.contains('\t'));
    let list = seq![first, second, third, path];
    let tab = seq!['\t'];
    lemma_join_split(list, '\t');
    assert(list.drop_last() =~= seq![first, second, third]);
    assert(seq![first, second, third].drop_last() =~= seq![first, second]);
    assert(seq![first, second].drop_last() =~= seq![first]);
    assert(join(seq![first], tab) == first);
    assert(join(seq![first, second], tab) == first + tab + second);
    assert(join(seq![first, second, third], tab) == first + tab + second + tab + third);
    let line = first + tab + second + tab + third + tab + path;
    assert(join(list, tab) == line);
    assert(split(line, '\t') == list);
    assert(second.len() > 0) by {
        if mode > 0 {
        }
    }
    assert('0' <= second[0] <= '9' || 'a' <= second[0] <= 'f');
    assert(unsigned_digits(second) == second);
    assert(unsigned_value(second, 8, 0xffff_ffff) == Some(mode as nat));
}

/// The entries of a manifest come in the order of its lines, and none is lost. A manifest
/// without an entry is of a path that does not exist.
pub proof fn every_line_of_a_manifest_is_an_entry(
    source: Seq<char>,
    output: Seq<u8>,
    entries: Seq<RemoteEntry<Seq<char>>>,
)
    requires
        valid_utf8(output),
        lines(decode_utf8(output)).len() == entries.len(),
        forall|i: int|
            0 <= i < entries.len() ==> manifest_line(lines(decode_utf8(output))[i]) == Ok::<
                Option<RemoteEntry<Seq<char>>>,
                Seq<char>,
            >(Some(#[trigger] entries[i])),
    ensures
        manifest(source, output) == if entries.len() == 0 {
            Err::<Seq<RemoteEntry<Seq<char>>>, Seq<char>>("remote path does not exist: "@ + source)
        } else {
            Ok(entries)
        },
{
    lemma_manifest_entries(lines(decode_utf8(output)), entries, entries.len() as int);
    assert(entries.take(entries.len() as int) =~= entries);
}

/// The first lines of a manifest are its first entries.
proof fn lemma_manifest_entries(
    list: Seq<Seq<char>>,
    entries: Seq<RemoteEntry<Seq<char>>>,
    n: int,
)
    requires
        0 <= n <= entries.len(),
        entries.len() == list.len(),
        forall|i: int|
            0 <= i < entries.len() ==> manifest_line(list[i]) == Ok::<
                Option<RemoteEntry<Seq<char>>>,
                Seq<char>,
            >(Some(#[trigger] entries[i])),
    ensures
        manifest_lines(list, n) == Ok::<Seq<RemoteEntry<Seq<char>>>, Seq<char>>(entries.take(n)),
    decreases n,
{
    if n == 0 {
        assert(entries.take(0) =~= seq![]);
    } else {
        lemma_manifest_entries(list, entries, n - 1);
        assert(manifest_line(list[n - 1]) == Ok::<Option<RemoteEntry<Seq<char>>>, Seq<char>>(
            Some(entries[n - 1]),
        ));
        assert(entries.take(n) =~= entries.take(n - 1).push(entries[n - 1]));
    }
}

/// The last path of a request is the destination, and all that come before it are sources.
/// Two sources or more go into it, and one does where it is a directory.
pub proof fn several_sources_go_into_the_destination(
    options: TransferOptions,
    sources: Seq<Seq<char>>,
    destination: Seq<char>,
    yes: bool,
)
    ensures
        ({
            let begun = download_begin(Transfer { options, paths: sources.push(destination) });
            let made = DownloadAction::<Seq<char>, Seq<Seq<char>>>::MakeDirectory(destination);
            &&& sources.len() == 0 ==> begun is Err
            &&& sources.len() > 0 ==> begun is Ok && begun->Ok_0.0.sources == sources
                && begun->Ok_0.0.destination == destination && begun->Ok_0.0.options == options
            &&& sources.len() > 1 ==> begun->Ok_0.0.multi && begun->Ok_0.1 == made
            &&& sources.len() == 1 ==> begun->Ok_0.1 == DownloadAction::<
                Seq<char>,
                Seq<Seq<char>>,
            >::IsDirectory(destination) && {
                let (next, action) = download_next(begun->Ok_0.0, DownloadEvent::Answer(yes));
                &&& next.multi == yes
                &&& yes ==> action == made && next.sources == sources
                &&& next.destination == destination
            }
        }),
{
    let paths = sources.push(destination);
    assert(paths.drop_last() =~= sources);
}

/// Where a source is put: under its own name in the destination, or, where it is one file
/// and the destination is no directory, at the destination itself.
pub proof fn sources_are_put_under_their_names(
    state: DownloadState,
    output: Seq<u8>,
    entries: Seq<RemoteEntry<Seq<char>>>,
    base: Seq<char>,
)
    requires
        state.waiting is Manifest,
        manifest(state.source, output) == Ok::<Seq<RemoteEntry<Seq<char>>>, Seq<char>>(entries),
        base_name(state.source) == Some(base),
        state.queue.len() == 0,
    ensures
        ({
            let (next, action) = download_next(state, DownloadEvent::Output(output));
            let inside = state.multi || entries[0].kind == EntryKind::Directory;
            let root = if inside {
                joined(state.destination, base)
            } else {
                state.destination
            };
            &&& next.local_root == root
            &&& next.entries == entries
            &&& next.root_is_directory == (entries[0].kind == EntryKind::Directory)
            &&& entries.len() > 0 ==> match safe_relative(state.source, entries[0].path) {
                Err(error) => action == DownloadAction::<Seq<char>, Seq<Seq<char>>>::Finish(
                    Err(error),
                ),
                Ok(_) => next.next == 1 && next.waiting is Task,
            }
        }),
{
}

/// An entry is put at the place of its source with what stands behind its source.
pub proof fn entries_keep_their_place_in_the_tree(root: Seq<char>, rest: Seq<char>)
    requires
        root.len() > 0,
        root.last() != '/',
        rest.len() == 0 || rest[0] != '/',
    ensures
        entry_local(root, rest) == if rest.len() == 0 {
            root
        } else {
            root + "/"@ + rest
        },
{
}

/// What is done for an entry: its line is printed unless it is to be quiet; the paths above
/// it are looked at; then a directory is made, or the directory above a file or a link, and
/// the file is fetched or the target of the link asked. The mode and the time of a file are
/// set in the end where that is asked for.
pub proof fn each_entry_is_fetched_to_its_place(
    state: DownloadState,
    entry: RemoteEntry<Seq<char>>,
    local: Seq<char>,
)
    ensures
        ({
            let tasks = download_tasks(state, entry, local);
            let first: int = if state.options.quiet {
                0
            } else {
                1
            };
            let above: int = if parent(local) is Some {
                1
            } else {
                0
            };
            let directory = entry.kind == EntryKind::Directory;
            let timed: u64 = if entry.mtime < 0 {
                0
            } else {
                entry.mtime as u64
            };
            &&& !state.options.quiet ==> tasks[0] == DownloadTask::Print(
                entry.path + " -> "@ + local,
            )
            &&& state.multi || state.root_is_directory ==> tasks[first] == (DownloadTask::Inspect {
                root: state.destination,
                local,
                directory,
            })
            &&& !state.multi && !state.root_is_directory ==> tasks[first] == (
            DownloadTask::AskDirectory { local, directory })
            &&& directory ==> tasks.len() == first + 2 && tasks[first + 1]
                == DownloadTask::MakeDirectory(local)
            &&& !directory && above == 1 ==> tasks[first + 1] == DownloadTask::MakeDirectory(
                parent(local)->0,
            )
            &&& entry.kind == EntryKind::Link ==> tasks.len() == first + above + 2 && tasks[first
                + above + 1] == (DownloadTask::ReadLink { remote: entry.path, local })
            &&& entry.kind == EntryKind::File ==> tasks[first + above + 1] == (DownloadTask::Pull {
                remote: entry.path,
                local,
            })
            &&& entry.kind == EntryKind::File && !state.options.archive ==> tasks.len() == first
                + above + 2
            &&& entry.kind == EntryKind::File && state.options.archive ==> tasks.len() == first
                + above + 3 && tasks.last() == (DownloadTask::SetMetadata {
                path: local,
                mode: (entry.mode % 4096) as u32,
                mtime: timed,
            })
        }),
{
}

/// A download does all that is planned in order: the tasks of an entry, then the next
/// entry, then the metadata of the directories from the last to the first, then the next
/// source. It ends well only when nothing of that is left.
pub proof fn downloads_leave_nothing_out(state: DownloadState)
    requires
        0 <= state.next <= state.entries.len(),
    ensures
        ({
            let (next, action) = download_advance(state);
            let queued = state.queue.len() > 0;
            let listed = !queued && state.next < state.entries.len();
            let finishing = !queued && !listed && state.directories.len() > 0;
            let sourced = !queued && !listed && !finishing && state.sources.len() > 0;
            &&& queued ==> next.waiting == DownloadWait::Task(state.queue[0]) && next.queue
                == state.queue.skip(1) && next.next == state.next && next.sources
                == state.sources && next.entries == state.entries && next.directories
                == state.directories
            &&& listed && safe_relative(state.source, state.entries[state.next].path) is Ok ==> {
                let entry = state.entries[state.next];
                let local = entry_local(
                    state.local_root,
                    safe_relative(state.source, entry.path)->Ok_0,
                );
                let tasks = download_tasks(state, entry, local);
                &&& next.next == state.next + 1
                &&& next.waiting == DownloadWait::Task(tasks[0])
                &&& next.queue == tasks.skip(1)
                &&& next.sources == state.sources
                &&& next.entries == state.entries
            }
            &&& finishing ==> action == (DownloadAction::<
                Seq<char>,
                Seq<Seq<char>>,
            >::SetMetadata {
                path: state.directories.last().path,
                mode: state.directories.last().mode,
                mtime: state.directories.last().mtime,
            }) && next.directories == state.directories.drop_last()
            &&& action == DownloadAction::<Seq<char>, Seq<Seq<char>>>::Finish(Ok(())) ==> !queued
                && !listed && !finishing && !sourced
            &&& !queued && !listed && !finishing && !sourced ==> action == DownloadAction::<
                Seq<char>,
                Seq<Seq<char>>,
            >::Finish(Ok(()))
        }),
{
}

/// The mode and the time of a directory are set at the end of its source where that is
/// asked for, and are otherwise left.
pub proof fn directories_are_remembered(
    state: DownloadState,
    entry: RemoteEntry<Seq<char>>,
    rest: Seq<char>,
)
    ensures
        ({
            let next = download_entry(state, entry, rest);
            let remembered = entry.kind == EntryKind::Directory && state.options.archive;
            let timed: u64 = if entry.mtime < 0 {
                0
            } else {
                entry.mtime as u64
            };
            &&& remembered ==> next.directories == state.directories.push(
                MadeDirectory {
                    path: entry_local(state.local_root, rest),
                    mode: (entry.mode % 4096) as u32,
                    mtime: timed,
                },
            )
            &&& !remembered ==> next.directories == state.directories
        }),
{
}

/// What a task asks for. The paths above a place are looked at from the root of the
/// download, which is the destination where that is a directory, or else what lies above
/// it.
pub proof fn tasks_ask_for_what_they_say(
    destination: Seq<char>,
    path: Seq<char>,
    local: Seq<char>,
    directory: bool,
    mode: u32,
    mtime: u64,
)
    ensures
        download_task_action(destination, DownloadTask::Print(path)) == DownloadAction::<
            Seq<char>,
            Seq<Seq<char>>,
        >::Print(path),
        download_task_action(destination, DownloadTask::AskDirectory { local, directory })
            == DownloadAction::<Seq<char>, Seq<Seq<char>>>::IsDirectory(destination),
        download_task_action(destination, DownloadTask::Inspect { root: path, local, directory })
            == DownloadAction::<Seq<char>, Seq<Seq<char>>>::AreLinks(
            download_ancestors(path, local, directory),
        ),
        download_task_action(destination, DownloadTask::MakeDirectory(path)) == DownloadAction::<
            Seq<char>,
            Seq<Seq<char>>,
        >::MakeDirectory(path),
        download_task_action(destination, DownloadTask::ReadLink { remote: path, local })
            == DownloadAction::<Seq<char>, Seq<Seq<char>>>::Shell(
            "readlink -- "@ + shell_word(path),
        ),
        download_task_action(destination, DownloadTask::AskPlace { target: path, local })
            == DownloadAction::<Seq<char>, Seq<Seq<char>>>::Exists(local),
        download_task_action(destination, DownloadTask::RemoveFile(path)) == DownloadAction::<
            Seq<char>,
            Seq<Seq<char>>,
        >::RemoveFile(path),
        download_task_action(destination, DownloadTask::MakeLink { target: path, local }) == (
        DownloadAction::<Seq<char>, Seq<Seq<char>>>::MakeLink { target: path, local }),
        download_task_action(destination, DownloadTask::Pull { remote: path, local }) is DrawBits,
        download_task_action(destination, DownloadTask::SetMetadata { path, mode, mtime }) == (
        DownloadAction::<Seq<char>, Seq<Seq<char>>>::SetMetadata { path, mode, mtime }),
        download_root(destination, true) == destination,
        parent(destination) is Some ==> download_root(destination, false) == parent(
            destination,
        )->0,
        parent(destination) is None ==> download_root(destination, false) == "."@,
{
}

/// A link of the device becomes a link of the host with the target that the device tells,
/// without the space behind it. What is at its place makes way for it.
pub proof fn links_keep_their_target(
    state: DownloadState,
    remote: Seq<char>,
    local: Seq<char>,
    told: Seq<char>,
    taken: bool,
)
    requires
        state.waiting == DownloadWait::Task(DownloadTask::ReadLink { remote, local }),
    ensures
        ({
            let (asked, question) = download_next(
                state,
                DownloadEvent::Output(encode_utf8(told)),
            );
            let (next, action) = download_next(asked, DownloadEvent::Answer(taken));
            let link = DownloadAction::<Seq<char>, Seq<Seq<char>>>::MakeLink {
                target: trim_end(told),
                local,
            };
            &&& question == DownloadAction::<Seq<char>, Seq<Seq<char>>>::Exists(local)
            &&& !taken ==> action == link && next.queue == state.queue
            &&& taken ==> action == DownloadAction::<Seq<char>, Seq<Seq<char>>>::RemoveFile(local)
                && {
                let (last, made) = download_next(next, DownloadEvent::Done);
                made == link && last.queue == state.queue
            }
        }),
{
    encode_utf8_valid_utf8(told);
    encode_utf8_decode_utf8(told);
    let target = trim_end(told);
    let asked = download_next(state, DownloadEvent::Output(encode_utf8(told))).0;
    let ask = DownloadTask::AskPlace { target, local };
    let link = DownloadTask::MakeLink { target, local };
    let remove = DownloadTask::RemoveFile(local);
    assert((seq![ask] + state.queue).drop_first() =~= state.queue);
    assert(asked.queue == state.queue);
    assert((seq![link] + state.queue).drop_first() =~= state.queue);
    assert((seq![remove] + (seq![link] + state.queue)).drop_first() =~= seq![link]
        + state.queue);
    assert((seq![link] + state.queue)[0] == link);
}

/// A failure of anything but the work on a temporary file ends a download with its reason.
pub proof fn failures_end_a_download(state: DownloadState, error: Seq<char>)
    requires
        !(state.waiting is Temporary),
        !(state.waiting is Clear),
    ensures
        download_next(state, DownloadEvent::Failed(error)).1 == DownloadAction::<
            Seq<char>,
            Seq<Seq<char>>,
        >::Finish(Err(error)),
        download_next(state, DownloadEvent::Failed(error)).0.waiting is Over,
{
}

/// A temporary file has a name that no list of files shows at first, made of both numbers
/// in sixteen hexadecimal digits each.
pub proof fn temporary_names_hold_all_bits(high: u64, low: u64)
    ensures
        partial_file(high, low) == ".mab-"@ + number(high as nat, 16, 16) + number(
            low as nat,
            16,
            16,
        ) + ".partial"@,
        digits_value(number(high as nat, 16, 16), 16) == Some(high as nat),
        digits_value(number(low as nat, 16, 16), 16) == Some(low as nat),
{
    numbers_are_read_back(high as nat, 16, 16);
    numbers_are_read_back(low as nat, 16, 16);
}

/// A download needs a source and a destination.
pub proof fn downloads_need_two_paths(request: Transfer)
    ensures
        request.paths.len() < 2 ==> download_begin(request) == Err::<DownloadStep, Seq<char>>(
            "pull requires at least one source and a destination"@,
        ),
        request.paths.len() >= 2 ==> download_begin(request) is Ok,
{
}

/// A line of a manifest has four parts, of which the first names a kind.
pub proof fn other_manifest_lines_are_refused(line: Seq<char>)
    ensures
        split(line, '\t').len() < 4 ==> manifest_line(line) == Err::<
            Option<RemoteEntry<Seq<char>>>,
            Seq<char>,
        >("invalid remote file manifest"@),
        split(line, '\t').len() >= 4 && split(line, '\t')[0].len() == 0 ==> manifest_line(line)
            == Err::<Option<RemoteEntry<Seq<char>>>, Seq<char>>("missing remote file type"@),
        split(line, '\t').len() > 4 ==> (manifest_line(line) is Err || manifest_line(line) == Ok::<
            Option<RemoteEntry<Seq<char>>>,
            Seq<char>,
        >(None)),
{
}

} // verus!
