//! Uploads of files and directories.
//!
//! An upload asks the host about its files and tells the device what to do, one
//! action at a time.

use crate::paths::{
    base_name, file_name, last_names_are_plain, names_part_paths, parent, parent_of, plain_name,
    relative, remote_join, remote_joined, remote_paths_have_one_slash_between, strip_base,
};
use crate::requests::{Transfer, TransferOptions, TransferRequest};
use crate::text::{complains, copy_text, plus, same_bytes, texts};
use crate::transfer::{
    apply_remote_metadata, link, link_command, metadata_command, mkdir, mkdir_command,
    path_refusal, path_valid, probe_command, remote_file_is_current, shell_quote, shows_current,
    stat_command, validate_transfer_path, FileKind, Metadata,
};
use vstd::prelude::*;
use vstd::utf8::*;

verus! {

/// One thing to do for an entry.
#[derive(Debug)]
pub enum UploadTask<T> {
    /// Print a line.
    Print(T),
    /// Run a shell command on the device.
    Shell(T),
    /// Upload the entry with this number to a path.
    Push {
        /// The number of the entry.
        entry: usize,
        /// The path.
        remote: T,
    },
    /// Read the link that is the entry with this number, for a path.
    ReadLink {
        /// The number of the entry.
        entry: usize,
        /// The path.
        remote: T,
    },
    /// Ask whether the file at a path is current.
    Check {
        /// The number of the entry.
        entry: usize,
        /// The path.
        remote: T,
        /// What is known of the entry.
        metadata: Metadata,
    },
}

/// What an upload waits for.
#[derive(Debug)]
pub enum UploadWait<T> {
    /// Whether the destination is a directory.
    Probe,
    /// Whether the one source is a directory.
    Source,
    /// The entries of the current source.
    Listing,
    /// What is known of the entry before the next.
    Entry,
    /// The end of a task.
    Task(UploadTask<T>),
    /// Nothing: the upload is over.
    Over,
}

/// What an upload asks for.
#[derive(Debug)]
pub enum UploadAction<T> {
    /// Run a shell command on the device and hand its output back.
    Shell(T),
    /// Say whether a path of the host is a directory.
    IsDirectory(T),
    /// List a path of the host and all that is beneath it, each before what it
    /// holds.
    List(T),
    /// Say what is known of the entry with this number.
    Stat(usize),
    /// Print a line.
    Print(T),
    /// Read the link that is the entry with this number.
    ReadLink(usize),
    /// Upload the entry with this number to a path.
    Push {
        /// The number of the entry.
        entry: usize,
        /// The path.
        remote: T,
    },
    /// The upload is over.
    Finish(Result<(), T>),
}

/// The answer to an action.
#[derive(Debug)]
pub enum UploadEvent<T, B, L> {
    /// It is done.
    Done,
    /// It failed, for this reason.
    Failed(T),
    /// The output of a shell command.
    Output(B),
    /// Yes or no.
    Answer(bool),
    /// The paths of the entries.
    Entries(L),
    /// What is known of an entry.
    Known(Metadata),
    /// The target of a link.
    Target(T),
}

/// An upload.
#[derive(Debug)]
pub struct Upload {
    options: TransferOptions,
    destination: String,
    multi: bool,
    sources: Vec<String>,
    source: String,
    base: String,
    entries: Vec<String>,
    next: usize,
    directories: Vec<(String, Metadata)>,
    queue: Vec<UploadTask<String>>,
    waiting: UploadWait<String>,
}

/// What an upload is.
#[verifier::ext_equal]
pub ghost struct UploadState {
    /// The options.
    pub options: TransferOptions,
    /// The destination on the device.
    pub destination: Seq<char>,
    /// Whether the sources are put into the destination, each under its name.
    pub multi: bool,
    /// The sources that are left.
    pub sources: Seq<Seq<char>>,
    /// The current source.
    pub source: Seq<char>,
    /// The name of the current source.
    pub base: Seq<char>,
    /// The entries of the current source.
    pub entries: Seq<Seq<char>>,
    /// The number of the next entry.
    pub next: int,
    /// The directories that were made for the current source.
    pub directories: Seq<(Seq<char>, Metadata)>,
    /// The tasks that are left for the current entry.
    pub queue: Seq<UploadTask<Seq<char>>>,
    /// What it waits for.
    pub waiting: UploadWait<Seq<char>>,
}

/// What a task says.
pub open spec fn task_view(task: UploadTask<String>) -> UploadTask<Seq<char>> {
    match task {
        UploadTask::Print(line) => UploadTask::Print(line@),
        UploadTask::Shell(command) => UploadTask::Shell(command@),
        UploadTask::Push { entry, remote } => UploadTask::Push { entry, remote: remote@ },
        UploadTask::ReadLink { entry, remote } => UploadTask::ReadLink { entry, remote: remote@ },
        UploadTask::Check { entry, remote, metadata } => UploadTask::Check {
            entry,
            remote: remote@,
            metadata,
        },
    }
}

/// What tasks say.
pub open spec fn task_views(list: Seq<UploadTask<String>>) -> Seq<UploadTask<Seq<char>>> {
    list.map_values(|task: UploadTask<String>| task_view(task))
}

/// What an upload waits for.
pub open spec fn wait_view(wait: UploadWait<String>) -> UploadWait<Seq<char>> {
    match wait {
        UploadWait::Probe => UploadWait::Probe,
        UploadWait::Source => UploadWait::Source,
        UploadWait::Listing => UploadWait::Listing,
        UploadWait::Entry => UploadWait::Entry,
        UploadWait::Task(task) => UploadWait::Task(task_view(task)),
        UploadWait::Over => UploadWait::Over,
    }
}

/// What an action says.
pub open spec fn upload_action_view(action: UploadAction<String>) -> UploadAction<Seq<char>> {
    match action {
        UploadAction::Shell(command) => UploadAction::Shell(command@),
        UploadAction::IsDirectory(path) => UploadAction::IsDirectory(path@),
        UploadAction::List(path) => UploadAction::List(path@),
        UploadAction::Stat(entry) => UploadAction::Stat(entry),
        UploadAction::Print(line) => UploadAction::Print(line@),
        UploadAction::ReadLink(entry) => UploadAction::ReadLink(entry),
        UploadAction::Push { entry, remote } => UploadAction::Push { entry, remote: remote@ },
        UploadAction::Finish(Ok(())) => UploadAction::Finish(Ok(())),
        UploadAction::Finish(Err(error)) => UploadAction::Finish(Err(error@)),
    }
}

/// What an answer says.
pub open spec fn upload_event_view(event: UploadEvent<String, Vec<u8>, Vec<String>>) -> UploadEvent<
    Seq<char>,
    Seq<u8>,
    Seq<Seq<char>>,
> {
    match event {
        UploadEvent::Done => UploadEvent::Done,
        UploadEvent::Failed(error) => UploadEvent::Failed(error@),
        UploadEvent::Output(output) => UploadEvent::Output(output@),
        UploadEvent::Answer(yes) => UploadEvent::Answer(yes),
        UploadEvent::Entries(list) => UploadEvent::Entries(texts(list@)),
        UploadEvent::Known(metadata) => UploadEvent::Known(metadata),
        UploadEvent::Target(target) => UploadEvent::Target(target@),
    }
}

/// Directories with what is known of them.
pub open spec fn directory_views(list: Seq<(String, Metadata)>) -> Seq<(Seq<char>, Metadata)> {
    list.map_values(|item: (String, Metadata)| (item.0@, item.1))
}

/// An upload that ends.
pub open spec fn upload_ends(state: UploadState, result: Result<(), Seq<char>>) -> (
    UploadState,
    UploadAction<Seq<char>>,
) {
    (UploadState { waiting: UploadWait::Over, ..state }, UploadAction::Finish(result))
}

/// The action of a task.
pub open spec fn task_action(task: UploadTask<Seq<char>>) -> UploadAction<Seq<char>> {
    match task {
        UploadTask::Print(line) => UploadAction::Print(line),
        UploadTask::Shell(command) => UploadAction::Shell(command),
        UploadTask::Push { entry, remote } => UploadAction::Push { entry, remote },
        UploadTask::ReadLink { entry, .. } => UploadAction::ReadLink(entry),
        UploadTask::Check { remote, .. } => UploadAction::Shell(stat_command(remote)),
    }
}

/// What an upload does next: the tasks of the current entry, then the next entry,
/// then the metadata of the directories from the last to the first, then the next
/// source.
pub open spec fn upload_advance(state: UploadState) -> (UploadState, UploadAction<Seq<char>>) {
    if state.queue.len() > 0 {
        let task = state.queue[0];
        (
            UploadState {
                queue: state.queue.drop_first(),
                waiting: UploadWait::Task(task),
                ..state
            },
            task_action(task),
        )
    } else if state.next < state.entries.len() {
        if !path_valid(state.entries[state.next]) {
            upload_ends(state, Err(path_refusal()))
        } else {
            (
                UploadState { next: state.next + 1, waiting: UploadWait::Entry, ..state },
                UploadAction::Stat(state.next as usize),
            )
        }
    } else if state.directories.len() > 0 {
        let last = state.directories.last();
        let command = metadata_command(last.0, last.1);
        (
            UploadState {
                directories: state.directories.drop_last(),
                waiting: UploadWait::Task(UploadTask::Shell(command)),
                ..state
            },
            UploadAction::Shell(command),
        )
    } else if state.sources.len() > 0 {
        let source = state.sources[0];
        match base_name(source) {
            None => upload_ends(state, Err("invalid local path"@)),
            Some(base) => (
                UploadState {
                    sources: state.sources.drop_first(),
                    source,
                    base,
                    waiting: UploadWait::Listing,
                    ..state
                },
                UploadAction::List(source),
            ),
        }
    } else {
        upload_ends(state, Ok(()))
    }
}

/// What an upload does once it is known whether the sources go into the
/// destination.
pub open spec fn upload_placed(state: UploadState, multi: bool) -> (
    UploadState,
    UploadAction<Seq<char>>,
) {
    upload_advance(
        UploadState {
            multi,
            queue: if multi && !state.options.dry_run {
                seq![UploadTask::Shell(mkdir_command(state.destination))]
            } else {
                seq![]
            },
            ..state
        },
    )
}

/// The tasks that upload a file.
pub open spec fn file_tasks(entry: usize, remote: Seq<char>, metadata: Metadata) -> Seq<
    UploadTask<Seq<char>>,
> {
    let rest = seq![
        UploadTask::Push { entry, remote },
        UploadTask::Shell(metadata_command(remote, metadata)),
    ];
    match parent(remote) {
        Some(above) => seq![UploadTask::Shell(mkdir_command(above))] + rest,
        None => rest,
    }
}

/// The tasks for an entry.
pub open spec fn entry_tasks(
    options: TransferOptions,
    path: Seq<char>,
    entry: usize,
    remote: Seq<char>,
    metadata: Metadata,
) -> Seq<UploadTask<Seq<char>>> {
    let printed: Seq<UploadTask<Seq<char>>> = if options.quiet {
        seq![]
    } else {
        seq![UploadTask::Print(path + " -> "@ + remote)]
    };
    if options.dry_run {
        printed
    } else {
        match metadata.kind {
            FileKind::Directory => printed.push(UploadTask::Shell(mkdir_command(remote))),
            FileKind::Link => printed.push(UploadTask::ReadLink { entry, remote }),
            FileKind::File => if options.sync {
                printed.push(UploadTask::Check { entry, remote, metadata })
            } else {
                printed + file_tasks(entry, remote, metadata)
            },
            FileKind::Other => printed,
        }
    }
}

/// Where an entry is put on the device.
pub open spec fn entry_remote(state: UploadState, rest: Seq<char>) -> Seq<char> {
    if state.multi {
        remote_joined(remote_joined(state.destination, state.base), rest)
    } else {
        state.destination
    }
}

/// What an upload does once it is known what an entry is.
pub open spec fn upload_known(state: UploadState, metadata: Metadata) -> (
    UploadState,
    UploadAction<Seq<char>>,
) {
    let entry = state.next - 1;
    let path = state.entries[entry];
    match relative(path, state.source) {
        None => upload_ends(state, Err("prefix not found"@)),
        Some(rest) => {
            let remote = entry_remote(state, rest);
            upload_advance(
                UploadState {
                    queue: entry_tasks(state.options, path, entry as usize, remote, metadata),
                    directories: if metadata.kind == FileKind::Directory && !state.options.dry_run {
                        state.directories.push((remote, metadata))
                    } else {
                        state.directories
                    },
                    ..state
                },
            )
        },
    }
}

/// What an upload does with tasks in front of those that are left.
pub open spec fn upload_with(state: UploadState, tasks: Seq<UploadTask<Seq<char>>>) -> (
    UploadState,
    UploadAction<Seq<char>>,
) {
    upload_advance(UploadState { queue: tasks + state.queue, ..state })
}

/// Whether an answer is one that an upload can get.
pub open spec fn upload_fits<T, B, L, U>(
    wait: UploadWait<U>,
    event: UploadEvent<T, B, L>,
) -> bool {
    match wait {
        UploadWait::Probe => event is Output || event is Failed,
        UploadWait::Source => event is Answer,
        UploadWait::Listing => event is Entries || event is Failed,
        UploadWait::Entry => event is Known || event is Failed,
        UploadWait::Task(UploadTask::Print(_)) => event is Done,
        UploadWait::Task(UploadTask::Shell(_)) => event is Output || event is Failed,
        UploadWait::Task(UploadTask::Push { .. }) => event is Done || event is Failed,
        UploadWait::Task(UploadTask::ReadLink { .. }) => event is Target || event is Failed,
        UploadWait::Task(UploadTask::Check { .. }) => event is Output || event is Failed,
        UploadWait::Over => false,
    }
}

/// What the device prints for a directory.
pub const DIRECTORY: [u8; 9] = [0x64, 0x69, 0x72, 0x65, 0x63, 0x74, 0x6f, 0x72, 0x79];

/// How an upload goes on after an answer.
pub open spec fn upload_next(
    state: UploadState,
    event: UploadEvent<Seq<char>, Seq<u8>, Seq<Seq<char>>>,
) -> (UploadState, UploadAction<Seq<char>>) {
    match (state.waiting, event) {
        (UploadWait::Task(UploadTask::Check { entry, remote, metadata }), UploadEvent::Output(
            output,
        )) => if shows_current(output, metadata) {
            upload_advance(state)
        } else {
            upload_with(state, file_tasks(entry, remote, metadata))
        },
        (UploadWait::Task(UploadTask::Check { entry, remote, metadata }), _) => upload_with(
            state,
            file_tasks(entry, remote, metadata),
        ),
        (_, UploadEvent::Failed(error)) => upload_ends(state, Err(error)),
        (UploadWait::Probe, UploadEvent::Output(output)) => if output == DIRECTORY@
            || state.sources.len() > 1 {
            upload_placed(state, true)
        } else {
            (
                UploadState { waiting: UploadWait::Source, ..state },
                UploadAction::IsDirectory(state.sources[0]),
            )
        },
        (UploadWait::Source, UploadEvent::Answer(yes)) => upload_placed(state, yes),
        (UploadWait::Listing, UploadEvent::Entries(list)) => upload_advance(
            UploadState { entries: list, next: 0, ..state },
        ),
        (UploadWait::Entry, UploadEvent::Known(metadata)) => upload_known(state, metadata),
        (UploadWait::Task(UploadTask::ReadLink { remote, .. }), UploadEvent::Target(
            target,
        )) => match parent(remote) {
            None => upload_ends(state, Err("invalid remote path"@)),
            Some(above) => upload_with(
                state,
                seq![UploadTask::Shell(link_command(above, remote, target))],
            ),
        },
        _ => upload_advance(state),
    }
}

/// How an upload begins.
pub open spec fn upload_begin(request: Transfer) -> Result<
    (UploadState, UploadAction<Seq<char>>),
    Seq<char>,
> {
    let paths = request.paths;
    if paths.len() < 2 {
        Err("push requires at least one source and a destination"@)
    } else if exists|i: int| 0 <= i < paths.len() && !path_valid(#[trigger] paths[i]) {
        Err(path_refusal())
    } else {
        Ok(
            (
                UploadState {
                    options: request.options,
                    destination: paths.last(),
                    multi: false,
                    sources: paths.drop_last(),
                    source: seq![],
                    base: seq![],
                    entries: seq![],
                    next: 0,
                    directories: seq![],
                    queue: seq![],
                    waiting: UploadWait::Probe,
                },
                UploadAction::Shell(probe_command(paths.last())),
            ),
        )
    }
}

/// Copies a task.
fn copy_task(task: &UploadTask<String>) -> (copy: UploadTask<String>)
    ensures
        task_view(copy) == task_view(*task),
{
    match task {
        UploadTask::Print(line) => UploadTask::Print(copy_text(line)),
        UploadTask::Shell(command) => UploadTask::Shell(copy_text(command)),
        UploadTask::Push { entry, remote } => UploadTask::Push {
            entry: *entry,
            remote: copy_text(remote),
        },
        UploadTask::ReadLink { entry, remote } => UploadTask::ReadLink {
            entry: *entry,
            remote: copy_text(remote),
        },
        UploadTask::Check { entry, remote, metadata } => UploadTask::Check {
            entry: *entry,
            remote: copy_text(remote),
            metadata: *metadata,
        },
    }
}

/// Builds the action of a task.
fn act(task: &UploadTask<String>) -> (action: UploadAction<String>)
    ensures
        upload_action_view(action) == task_action(task_view(*task)),
{
    match task {
        UploadTask::Print(line) => UploadAction::Print(copy_text(line)),
        UploadTask::Shell(command) => UploadAction::Shell(copy_text(command)),
        UploadTask::Push { entry, remote } => UploadAction::Push {
            entry: *entry,
            remote: copy_text(remote),
        },
        UploadTask::ReadLink { entry, .. } => UploadAction::ReadLink(*entry),
        UploadTask::Check { remote, .. } => UploadAction::Shell(
            plus(copy_text("stat -c '%s %Y' -- "), &shell_quote(remote)),
        ),
    }
}

/// Builds the tasks that upload a file.
fn plan_file(entry: usize, remote: &str, metadata: &Metadata) -> (tasks: Vec<UploadTask<String>>)
    ensures
        task_views(tasks@) == file_tasks(entry, remote@, *metadata),
{
    let mut tasks: Vec<UploadTask<String>> = Vec::new();
    if let Some(above) = parent_of(remote) {
        tasks.push(UploadTask::Shell(mkdir(&above)));
    }
    tasks.push(UploadTask::Push { entry, remote: copy_text(remote) });
    tasks.push(UploadTask::Shell(apply_remote_metadata(remote, metadata)));
    assert(task_views(tasks@) =~= file_tasks(entry, remote@, *metadata));
    tasks
}

/// Builds the tasks for an entry.
fn plan_entry(
    options: &TransferOptions,
    path: &str,
    entry: usize,
    remote: &str,
    metadata: &Metadata,
) -> (tasks: Vec<UploadTask<String>>)
    ensures
        task_views(tasks@) == entry_tasks(*options, path@, entry, remote@, *metadata),
{
    let mut tasks: Vec<UploadTask<String>> = Vec::new();
    if !options.quiet {
        tasks.push(UploadTask::Print(plus(plus(copy_text(path), " -> "), remote)));
    }
    if !options.dry_run {
        match metadata.kind {
            FileKind::Directory => tasks.push(UploadTask::Shell(mkdir(remote))),
            FileKind::Link => tasks.push(
                UploadTask::ReadLink { entry, remote: copy_text(remote) },
            ),
            FileKind::File => {
                if options.sync {
                    tasks.push(
                        UploadTask::Check { entry, remote: copy_text(remote), metadata: *metadata },
                    );
                } else {
                    let ghost before = task_views(tasks@);
                    let mut more: Vec<UploadTask<String>> = plan_file(entry, remote, metadata);
                    let ghost added = task_views(more@);
                    tasks.append(&mut more);
                    assert(task_views(tasks@) =~= before + added);
                }
            },
            FileKind::Other => {},
        }
    }
    assert(task_views(tasks@) =~= entry_tasks(*options, path@, entry, remote@, *metadata));
    tasks
}

impl Upload {
    /// What the upload is.
    pub closed spec fn view(&self) -> UploadState {
        UploadState {
            options: self.options,
            destination: self.destination@,
            multi: self.multi,
            sources: texts(self.sources@),
            source: self.source@,
            base: self.base@,
            entries: texts(self.entries@),
            next: self.next as int,
            directories: directory_views(self.directories@),
            queue: task_views(self.queue@),
            waiting: wait_view(self.waiting),
        }
    }

    /// The next entry is not behind the end, there is an entry where one is
    /// asked about, and a source where the destination is.
    pub open spec fn wf(&self) -> bool {
        &&& 0 <= self@.next <= self@.entries.len()
        &&& self@.waiting is Entry ==> self@.next > 0
        &&& (self@.waiting is Probe || self@.waiting is Source) ==> self@.sources.len() > 0
    }

    /// Begins an upload.
    pub fn begin(request: TransferRequest) -> (begun: Result<(Upload, UploadAction<String>), String>)
        ensures
            match upload_begin(request@) {
                Ok((state, action)) => begun is Ok && begun->Ok_0.0.wf() && begun->Ok_0.0@ == state
                    && upload_action_view(begun->Ok_0.1) == action,
                Err(error) => complains(begun, error),
            },
    {
        let ghost paths = texts(request.paths@);
        assert(paths.len() == request.paths@.len());
        if request.paths.len() < 2 {
            return Err(copy_text("push requires at least one source and a destination"));
        }
        let mut i: usize = 0;
        while i < request.paths.len()
            invariant
                i <= request.paths@.len(),
                paths == texts(request.paths@),
                paths == request@.paths,
                2 <= paths.len() == request.paths@.len(),
                forall|j: int| 0 <= j < i ==> path_valid(#[trigger] paths[j]),
            decreases request.paths@.len() - i,
        {
            assert(paths[i as int] == request.paths@[i as int]@);
            match validate_transfer_path(&request.paths[i]) {
                Ok(()) => {},
                Err(error) => return Err(error),
            }
            i = i + 1;
        }
        let mut sources: Vec<String> = request.paths;
        let destination: String = match sources.pop() {
            Some(path) => path,
            None => String::new(),
        };
        proof {
            assert(texts(sources@) =~= paths.drop_last());
            assert(destination@ == paths.last());
        }
        let command: String = plus(
            plus(copy_text("if [ -d "), &shell_quote(&destination)),
            " ]; then printf directory; fi",
        );
        let upload = Upload {
            options: request.options,
            destination,
            multi: false,
            sources,
            source: String::new(),
            base: String::new(),
            entries: Vec::new(),
            next: 0,
            directories: Vec::new(),
            queue: Vec::new(),
            waiting: UploadWait::Probe,
        };
        proof {
            assert(upload@.source =~= seq![]);
            assert(upload@.base =~= seq![]);
            assert(upload@.entries =~= seq![]);
            assert(upload@.directories =~= seq![]);
            assert(upload@.queue =~= seq![]);
        }
        Ok((upload, UploadAction::Shell(command)))
    }

    /// Ends the upload.
    fn end(self, result: Result<(), String>) -> (ended: (Upload, UploadAction<String>))
        requires
            self.wf(),
        ensures
            ended.0.wf(),
            (ended.0@, upload_action_view(ended.1)) == upload_ends(
                self@,
                match result {
                    Ok(()) => Ok(()),
                    Err(error) => Err(error@),
                },
            ),
    {
        let mut upload = self;
        upload.waiting = UploadWait::Over;
        (upload, UploadAction::Finish(result))
    }

    /// Does what comes next.
    fn advance(self) -> (next: (Upload, UploadAction<String>))
        requires
            0 <= self@.next <= self@.entries.len(),
        ensures
            next.0.wf(),
            (next.0@, upload_action_view(next.1)) == upload_advance(self@),
    {
        let mut upload = self;
        let ghost state = upload@;
        assert(task_views(upload.queue@).len() == upload.queue@.len());
        assert(texts(upload.entries@).len() == upload.entries@.len());
        assert(texts(upload.sources@).len() == upload.sources@.len());
        assert(directory_views(upload.directories@).len() == upload.directories@.len());
        if upload.queue.len() > 0 {
            let task: UploadTask<String> = upload.queue.remove(0);
            proof {
                assert(task_view(task) == state.queue[0]);
                assert(task_views(upload.queue@) =~= state.queue.drop_first());
            }
            let action: UploadAction<String> = act(&task);
            upload.waiting = UploadWait::Task(task);
            return (upload, action);
        }
        if upload.next < upload.entries.len() {
            let entry: usize = upload.next;
            assert(state.entries[entry as int] == upload.entries@[entry as int]@);
            match validate_transfer_path(&upload.entries[entry]) {
                Ok(()) => {},
                Err(error) => {
                    upload.waiting = UploadWait::Over;
                    return (upload, UploadAction::Finish(Err(error)));
                },
            }
            upload.next = entry + 1;
            upload.waiting = UploadWait::Entry;
            return (upload, UploadAction::Stat(entry));
        }
        if upload.directories.len() > 0 {
            let last: Option<(String, Metadata)> = upload.directories.pop();
            assert(directory_views(upload.directories@) =~= state.directories.drop_last());
            let command: String = match last {
                Some((remote, metadata)) => {
                    assert((remote@, metadata) == state.directories.last());
                    apply_remote_metadata(&remote, &metadata)
                },
                None => String::new(),
            };
            upload.waiting = UploadWait::Task(UploadTask::Shell(copy_text(&command)));
            return (upload, UploadAction::Shell(command));
        }
        if upload.sources.len() > 0 {
            assert(state.sources[0] == upload.sources@[0]@);
            match file_name(&upload.sources[0]) {
                None => {
                    upload.waiting = UploadWait::Over;
                    return (
                        upload,
                        UploadAction::Finish(Err(copy_text("invalid local path"))),
                    );
                },
                Some(base) => {
                    let source: String = upload.sources.remove(0);
                    assert(texts(upload.sources@) =~= state.sources.drop_first());
                    let action = UploadAction::List(copy_text(&source));
                    upload.source = source;
                    upload.base = base;
                    upload.waiting = UploadWait::Listing;
                    return (upload, action);
                },
            }
        }
        upload.waiting = UploadWait::Over;
        (upload, UploadAction::Finish(Ok(())))
    }

    /// Goes on once it is known whether the sources go into the destination.
    fn place(self, multi: bool) -> (next: (Upload, UploadAction<String>))
        requires
            self.wf(),
        ensures
            next.0.wf(),
            (next.0@, upload_action_view(next.1)) == upload_placed(self@, multi),
    {
        let mut upload = self;
        upload.multi = multi;
        let mut queue: Vec<UploadTask<String>> = Vec::new();
        if multi && !upload.options.dry_run {
            queue.push(UploadTask::Shell(mkdir(&upload.destination)));
        }
        upload.queue = queue;
        proof {
            let planned: Seq<UploadTask<Seq<char>>> = if multi && !self@.options.dry_run {
                seq![UploadTask::Shell(mkdir_command(self@.destination))]
            } else {
                seq![]
            };
            assert(upload@.queue =~= planned);
        }
        upload.advance()
    }

    /// Goes on with tasks in front of those that are left.
    fn with(self, tasks: Vec<UploadTask<String>>) -> (next: (Upload, UploadAction<String>))
        requires
            self.wf(),
        ensures
            next.0.wf(),
            (next.0@, upload_action_view(next.1)) == upload_with(self@, task_views(tasks@)),
    {
        let mut upload = self;
        let ghost old_queue = task_views(upload.queue@);
        let ghost planned = task_views(tasks@);
        let mut queue: Vec<UploadTask<String>> = tasks;
        queue.append(&mut upload.queue);
        assert(task_views(queue@) =~= planned + old_queue);
        upload.queue = queue;
        upload.advance()
    }

    /// Goes on once it is known what an entry is.
    fn known(self, metadata: &Metadata) -> (next: (Upload, UploadAction<String>))
        requires
            self.wf(),
            self@.next > 0,
        ensures
            next.0.wf(),
            (next.0@, upload_action_view(next.1)) == upload_known(self@, *metadata),
    {
        let entry: usize = self.next - 1;
        assert(texts(self.entries@).len() == self.entries@.len());
        assert(self@.entries[entry as int] == self.entries@[entry as int]@);
        let rest: String = match strip_base(&self.entries[entry], &self.source) {
            Some(rest) => rest,
            None => return self.end(Err(copy_text("prefix not found"))),
        };
        let remote: String = if self.multi {
            remote_join(&remote_join(&self.destination, &self.base), &rest)
        } else {
            copy_text(&self.destination)
        };
        let mut upload = self;
        upload.queue = plan_entry(
            &upload.options,
            &upload.entries[entry],
            entry,
            &remote,
            metadata,
        );
        if metadata.kind == FileKind::Directory && !upload.options.dry_run {
            let ghost before = directory_views(upload.directories@);
            let ghost place = remote@;
            upload.directories.push((remote, *metadata));
            assert(directory_views(upload.directories@) =~= before.push((place, *metadata)));
        }
        upload.advance()
    }

    /// Goes on after an answer.
    pub fn on_event(self, event: UploadEvent<String, Vec<u8>, Vec<String>>) -> (next: (
        Upload,
        UploadAction<String>,
    ))
        requires
            self.wf(),
            upload_fits(self@.waiting, event),
        ensures
            next.0.wf(),
            (next.0@, upload_action_view(next.1)) == upload_next(self@, upload_event_view(event)),
    {
        let waiting: UploadWait<String> = match &self.waiting {
            UploadWait::Probe => UploadWait::Probe,
            UploadWait::Source => UploadWait::Source,
            UploadWait::Listing => UploadWait::Listing,
            UploadWait::Entry => UploadWait::Entry,
            UploadWait::Task(task) => UploadWait::Task(copy_task(task)),
            UploadWait::Over => UploadWait::Over,
        };
        assert(wait_view(waiting) == self@.waiting);
        match (waiting, event) {
            (
                UploadWait::Task(UploadTask::Check { entry, remote, metadata }),
                UploadEvent::Output(output),
            ) => if remote_file_is_current(&output, &metadata) {
                self.advance()
            } else {
                self.with(plan_file(entry, &remote, &metadata))
            },
            (UploadWait::Task(UploadTask::Check { entry, remote, metadata }), _) => self.with(
                plan_file(entry, &remote, &metadata),
            ),
            (_, UploadEvent::Failed(error)) => self.end(Err(error)),
            (UploadWait::Probe, UploadEvent::Output(output)) => {
                assert(texts(self.sources@).len() == self.sources@.len());
                if same_bytes(&output, &DIRECTORY) || self.sources.len() > 1 {
                    self.place(true)
                } else {
                    assert(self@.sources[0] == self.sources@[0]@);
                    let action = UploadAction::IsDirectory(copy_text(&self.sources[0]));
                    let mut upload = self;
                    upload.waiting = UploadWait::Source;
                    (upload, action)
                }
            },
            (UploadWait::Source, UploadEvent::Answer(yes)) => self.place(yes),
            (UploadWait::Listing, UploadEvent::Entries(list)) => {
                let mut upload = self;
                upload.entries = list;
                upload.next = 0;
                upload.advance()
            },
            (UploadWait::Entry, UploadEvent::Known(metadata)) => self.known(&metadata),
            (
                UploadWait::Task(UploadTask::ReadLink { remote, .. }),
                UploadEvent::Target(target),
            ) => match parent_of(&remote) {
                None => self.end(Err(copy_text("invalid remote path"))),
                Some(above) => {
                    let mut tasks: Vec<UploadTask<String>> = Vec::new();
                    tasks.push(UploadTask::Shell(link(&above, &remote, &target)));
                    assert(task_views(tasks@) =~= seq![
                        UploadTask::Shell(link_command(above@, remote@, target@)),
                    ]);
                    self.with(tasks)
                },
            },
            _ => self.advance(),
        }
    }
}

/// Whether an action changes nothing on the device: only the question about the
/// destination is put to it.
pub open spec fn harmless(state: UploadState, action: UploadAction<Seq<char>>) -> bool {
    match action {
        UploadAction::Shell(command) => command == probe_command(state.destination),
        UploadAction::Push { .. } => false,
        _ => true,
    }
}

/// What holds all through a dry run: there is nothing to do but print.
pub open spec fn dry(state: UploadState) -> bool {
    &&& state.options.dry_run
    &&& state.directories.len() == 0
    &&& forall|i: int| 0 <= i < state.queue.len() ==> (#[trigger] state.queue[i]) is Print
    &&& state.waiting matches UploadWait::Task(task) ==> task is Print
}

/// A dry run begins as one.
pub proof fn dry_runs_begin(request: Transfer)
    requires
        request.options.dry_run,
        upload_begin(request) is Ok,
    ensures
        dry(upload_begin(request)->Ok_0.0),
        harmless(upload_begin(request)->Ok_0.0, upload_begin(request)->Ok_0.1),
{
}

/// A dry run changes nothing on the device.
pub proof fn dry_runs_change_nothing(
    state: UploadState,
    event: UploadEvent<Seq<char>, Seq<u8>, Seq<Seq<char>>>,
)
    requires
        dry(state),
        upload_fits(state.waiting, event),
    ensures
        dry(upload_next(state, event).0),
        harmless(upload_next(state, event).0, upload_next(state, event).1),
{
}

/// The metadata of the directories of a source is set from the last that was made
/// to the first, once nothing is left to be put into them.
pub proof fn directories_are_finished_last(state: UploadState)
    requires
        state.directories.len() > 0,
        upload_advance(state).0.directories != state.directories,
    ensures
        state.queue.len() == 0,
        state.next >= state.entries.len(),
        upload_advance(state).0.directories == state.directories.drop_last(),
        upload_advance(state).1 == UploadAction::Shell(
            metadata_command(state.directories.last().0, state.directories.last().1),
        ),
{
}

/// What an answer to an upload is, as plain values.
pub type Told = UploadEvent<Seq<char>, Seq<u8>, Seq<Seq<char>>>;

/// The last path of a request is the destination, and all that come before it are
/// sources. A request is refused where there is no source, or where a path is.
pub proof fn the_last_path_is_the_destination(
    options: TransferOptions,
    sources: Seq<Seq<char>>,
    destination: Seq<char>,
)
    ensures
        ({
            let begun = upload_begin(Transfer { options, paths: sources.push(destination) });
            let refused = !path_valid(destination) || exists|i: int|
                0 <= i < sources.len() && !path_valid(#[trigger] sources[i]);
            if sources.len() == 0 {
                begun is Err
            } else if refused {
                begun == Err::<(UploadState, UploadAction<Seq<char>>), Seq<char>>(
                    "file paths containing control characters are not supported"@,
                )
            } else {
                &&& begun is Ok
                &&& begun->Ok_0.0.sources == sources
                &&& begun->Ok_0.0.destination == destination
                &&& begun->Ok_0.0.options == options
                &&& begun->Ok_0.0.waiting is Probe
                &&& begun->Ok_0.0.entries.len() == 0
                &&& begun->Ok_0.0.directories.len() == 0
                &&& begun->Ok_0.0.queue.len() == 0
                &&& begun->Ok_0.1 == UploadAction::Shell(
                    "if [ -d "@ + crate::transfer::shell_word(destination)
                        + " ]; then printf directory; fi"@,
                )
            }
        }),
{
    let paths = sources.push(destination);
    assert(paths.drop_last() =~= sources);
    assert(paths.last() == destination);
    let refused = !path_valid(destination) || exists|i: int|
        0 <= i < sources.len() && !path_valid(#[trigger] sources[i]);
    if exists|i: int| 0 <= i < paths.len() && !path_valid(#[trigger] paths[i]) {
        let i = choose|i: int| 0 <= i < paths.len() && !path_valid(#[trigger] paths[i]);
        if i < sources.len() {
            assert(!path_valid(sources[i]));
        }
    }
    if refused {
        if path_valid(destination) {
            let i = choose|i: int| 0 <= i < sources.len() && !path_valid(#[trigger] sources[i]);
            assert(paths[i] == sources[i]);
        } else {
            assert(paths[sources.len() as int] == destination);
        }
    }
}

/// The sources go into the destination where the device says that it is a directory,
/// where there are two of them or more, or where the only one is a directory; else the
/// one file takes the place of the destination. Where they go into it, it is made first.
pub proof fn several_sources_go_into_the_destination(state: UploadState, output: Seq<u8>, yes: bool)
    requires
        state.waiting is Probe,
        state.sources.len() > 0,
    ensures
        ({
            let (next, action) = upload_next(state, UploadEvent::Output(output));
            let into = output == encode_utf8("directory"@) || state.sources.len() >= 2;
            let made = UploadAction::Shell(
                "mkdir -p -- "@ + crate::transfer::shell_word(state.destination),
            );
            &&& into ==> next.multi
            &&& into && !state.options.dry_run ==> action == made
            &&& !into ==> action == UploadAction::IsDirectory(state.sources[0]) && {
                let (settled, asked) = upload_next(next, UploadEvent::Answer(yes));
                &&& next.waiting is Source
                &&& settled.multi == yes
                &&& yes && !state.options.dry_run ==> asked == made
            }
        }),
{
    reveal_strlit("directory");
    is_ascii_chars_encode_utf8("directory"@);
    assert(DIRECTORY@ =~= encode_utf8("directory"@));
}

/// Once it is known whether the sources go into the destination that stays, and so do
/// the destination and the options all along.
pub proof fn the_place_of_an_upload_is_settled_once(state: UploadState, event: Told)
    requires
        upload_fits(state.waiting, event),
    ensures
        ({
            let next = upload_next(state, event).0;
            &&& next.destination == state.destination
            &&& next.options == state.options
            &&& !(state.waiting is Probe) && !(state.waiting is Source) ==> next.multi
                == state.multi
        }),
{
}

/// Where an entry goes: beneath the destination under the name of its source, with what
/// stands behind its source; or to the destination itself.
pub proof fn entries_go_beneath_the_name_of_their_source(state: UploadState, rest: Seq<char>)
    requires
        state.destination.len() > 0,
        state.destination.last() != '/',
        plain_name(state.base),
    ensures
        state.multi && rest.len() > 0 ==> entry_remote(state, rest) == state.destination + "/"@
            + state.base + "/"@ + rest,
        state.multi && rest.len() == 0 ==> entry_remote(state, rest) == state.destination + "/"@
            + state.base,
        !state.multi ==> entry_remote(state, rest) == state.destination,
{
    remote_paths_have_one_slash_between(state.destination, state.base);
    let place = state.destination + "/"@ + state.base;
    assert(place.last() == state.base.last());
    assert(state.base.contains(state.base.last()));
    remote_paths_have_one_slash_between(place, rest);
}

/// No two sources with different names share a place, and nothing beneath them does.
pub proof fn sources_never_share_a_place(
    state: UploadState,
    other: UploadState,
    rest: Seq<char>,
    other_rest: Seq<char>,
)
    requires
        state.multi,
        other.multi,
        state.destination == other.destination,
        base_name(state.source) == Some(state.base),
        base_name(other.source) == Some(other.base),
        state.base != other.base,
    ensures
        entry_remote(state, rest) != entry_remote(other, other_rest),
{
    last_names_are_plain(state.source);
    last_names_are_plain(other.source);
    names_part_paths(state.destination, state.base, other.base, rest, other_rest);
}

/// An upload does all that is planned in order: the tasks of an entry, then the next
/// entry, then what is left for the directories, then the next source. It ends well only
/// when nothing of that is left.
pub proof fn uploads_leave_nothing_out(state: UploadState)
    requires
        0 <= state.next <= state.entries.len(),
    ensures
        ({
            let (next, action) = upload_advance(state);
            let queued = state.queue.len() > 0;
            let listed = !queued && state.next < state.entries.len();
            let finishing = !queued && !listed && state.directories.len() > 0;
            let sourced = !queued && !listed && !finishing && state.sources.len() > 0;
            &&& queued ==> next.waiting == UploadWait::Task(state.queue[0]) && next.queue
                == state.queue.skip(1) && next.next == state.next && next.sources
                == state.sources && next.entries == state.entries && next.directories
                == state.directories
            &&& listed && path_valid(state.entries[state.next]) ==> action == UploadAction::<
                Seq<char>,
            >::Stat(state.next as usize) && next.next == state.next + 1 && next.waiting is Entry
                && next.entries == state.entries && next.sources == state.sources
                && next.directories == state.directories
            &&& listed && !path_valid(state.entries[state.next]) ==> action is Finish
            &&& sourced && base_name(state.sources[0]) is Some ==> action == UploadAction::List(
                state.sources[0],
            ) && next.source == state.sources[0] && Some(next.base) == base_name(state.sources[0])
                && next.sources == state.sources.skip(1) && next.waiting is Listing
            &&& action == UploadAction::<Seq<char>>::Finish(Ok(())) ==> !queued && !listed
                && !finishing && !sourced
            &&& !queued && !listed && !finishing && !sourced ==> action == UploadAction::<
                Seq<char>,
            >::Finish(Ok(()))
        }),
{
}

/// The entries that were listed for a source are gone through from the first.
pub proof fn listed_entries_are_gone_through(state: UploadState, list: Seq<Seq<char>>)
    requires
        state.waiting is Listing,
        state.queue.len() == 0,
        list.len() > 0,
        path_valid(list[0]),
    ensures
        ({
            let (next, action) = upload_next(state, UploadEvent::Entries(list));
            &&& next.entries == list
            &&& next.next == 1
            &&& action == UploadAction::<Seq<char>>::Stat(0)
        }),
{
}

/// What is done for an entry: its line is printed unless it is to be quiet; a directory
/// is made; a file is put at its place once, after the directory above it was made and
/// before its metadata is set; of a link its target is asked; and anything else is left
/// out.
pub proof fn each_entry_is_put_at_its_place(
    options: TransferOptions,
    path: Seq<char>,
    entry: usize,
    remote: Seq<char>,
    metadata: Metadata,
)
    requires
        !options.dry_run,
    ensures
        ({
            let tasks = entry_tasks(options, path, entry, remote, metadata);
            let first: int = if options.quiet {
                0
            } else {
                1
            };
            let word = crate::transfer::shell_word(remote);
            &&& !options.quiet ==> tasks.len() > 0 && tasks[0] == UploadTask::Print(
                path + " -> "@ + remote,
            )
            &&& metadata.kind == FileKind::Directory ==> tasks.len() == first + 1 && tasks[first]
                == UploadTask::Shell("mkdir -p -- "@ + word)
            &&& metadata.kind == FileKind::Link ==> tasks.len() == first + 1 && tasks[first] == (
            UploadTask::ReadLink { entry, remote })
            &&& metadata.kind == FileKind::Other ==> tasks.len() == first
            &&& metadata.kind == FileKind::File && options.sync ==> tasks.len() == first + 1
                && tasks[first] == (UploadTask::Check { entry, remote, metadata })
            &&& metadata.kind == FileKind::File && !options.sync ==> tasks.skip(first)
                == file_tasks(entry, remote, metadata)
        }),
{
    let tasks = entry_tasks(options, path, entry, remote, metadata);
    if metadata.kind == FileKind::File && !options.sync {
        let first: int = if options.quiet {
            0
        } else {
            1
        };
        assert(tasks.skip(first) =~= file_tasks(entry, remote, metadata));
    }
}

/// A file is put at its place: the directory above it is made, the file is sent, and then
/// its time and its mode are set.
pub proof fn files_are_sent_between_their_directory_and_their_metadata(
    entry: usize,
    remote: Seq<char>,
    metadata: Metadata,
)
    ensures
        ({
            let tasks = file_tasks(entry, remote, metadata);
            let n = tasks.len() as int;
            &&& n >= 2
            &&& tasks[n - 2] == (UploadTask::Push { entry, remote })
            &&& tasks[n - 1] == UploadTask::Shell(metadata_command(remote, metadata))
            &&& parent(remote) matches Some(above) ==> n == 3 && tasks[0] == UploadTask::Shell(
                "mkdir -p -- "@ + crate::transfer::shell_word(above),
            )
            &&& parent(remote) is None ==> n == 2
        }),
{
}

/// What is known of an entry is used for that entry: the tasks that follow are those for
/// the path that was asked about, at the place of what stands behind its source. A
/// directory is remembered for the end.
pub proof fn what_is_known_is_used_for_the_entry(state: UploadState, metadata: Metadata)
    requires
        state.waiting is Entry,
        0 < state.next <= state.entries.len(),
        relative(state.entries[state.next - 1], state.source) is Some,
    ensures
        ({
            let path = state.entries[state.next - 1];
            let remote = entry_remote(state, relative(path, state.source)->0);
            let tasks = entry_tasks(
                state.options,
                path,
                (state.next - 1) as usize,
                remote,
                metadata,
            );
            let next = upload_next(state, UploadEvent::Known(metadata)).0;
            &&& tasks.len() > 0 ==> next.waiting == UploadWait::Task(tasks[0]) && next.queue
                == tasks.skip(1)
            &&& metadata.kind == FileKind::Directory && !state.options.dry_run && tasks.len() > 0
                ==> next.directories == state.directories.push((remote, metadata))
            &&& metadata.kind != FileKind::Directory && tasks.len() > 0 ==> next.directories
                == state.directories
        }),
{
}

/// What a task asks for.
pub proof fn tasks_ask_for_what_they_say(
    line: Seq<char>,
    entry: usize,
    remote: Seq<char>,
    metadata: Metadata,
)
    ensures
        task_action(UploadTask::Print(line)) == UploadAction::Print(line),
        task_action(UploadTask::Shell(line)) == UploadAction::Shell(line),
        task_action(UploadTask::Push { entry, remote }) == (UploadAction::Push { entry, remote }),
        task_action(UploadTask::ReadLink { entry, remote }) == UploadAction::<Seq<char>>::ReadLink(
            entry,
        ),
        task_action(UploadTask::Check { entry, remote, metadata }) == UploadAction::Shell(
            "stat -c '%s %Y' -- "@ + crate::transfer::shell_word(remote),
        ),
{
}

/// A file that is current on the device is not sent; one that is not, or whose state the
/// device cannot tell, is.
pub proof fn only_current_files_are_passed_over(
    state: UploadState,
    entry: usize,
    remote: Seq<char>,
    metadata: Metadata,
    event: Told,
)
    requires
        state.waiting == UploadWait::Task(UploadTask::Check { entry, remote, metadata }),
        upload_fits(state.waiting, event),
    ensures
        ({
            let (next, action) = upload_next(state, event);
            let tasks = file_tasks(entry, remote, metadata);
            let current = event matches UploadEvent::Output(output) && shows_current(
                output,
                metadata,
            );
            &&& current ==> (next, action) == upload_advance(state)
            &&& !current ==> next.waiting == UploadWait::Task(tasks[0]) && next.queue
                == tasks.skip(1) + state.queue
        }),
{
    let tasks = file_tasks(entry, remote, metadata);
    assert((tasks + state.queue).drop_first() =~= tasks.skip(1) + state.queue);
}

/// A link is made anew on the device, with the target that it has on the host.
pub proof fn links_keep_their_target(
    state: UploadState,
    entry: usize,
    remote: Seq<char>,
    target: Seq<char>,
)
    requires
        state.waiting == UploadWait::Task(UploadTask::ReadLink { entry, remote }),
        parent(remote) is Some,
    ensures
        ({
            let (next, action) = upload_next(state, UploadEvent::Target(target));
            let word = crate::transfer::shell_word(remote);
            &&& action == UploadAction::Shell(
                "mkdir -p -- "@ + crate::transfer::shell_word(parent(remote)->0) + " && rm -f -- "@
                    + word + " && ln -s -- "@ + crate::transfer::shell_word(target) + " "@ + word,
            )
            &&& next.queue == state.queue
        }),
{
    let tasks = seq![
        UploadTask::Shell(link_command(parent(remote)->0, remote, target)),
    ];
    assert((tasks + state.queue).drop_first() =~= state.queue);
}

/// A failure ends an upload with its reason, except of the question whether a file is
/// current.
pub proof fn failures_end_an_upload(state: UploadState, error: Seq<char>)
    requires
        !(state.waiting matches UploadWait::Task(task) && task is Check),
    ensures
        upload_next(state, UploadEvent::Failed(error)).1 == UploadAction::<Seq<char>>::Finish(
            Err(error),
        ),
        upload_next(state, UploadEvent::Failed(error)).0.waiting is Over,
{
}

/// An upload needs a source and a destination, each a path that the device can take.
pub proof fn uploads_need_two_paths(request: Transfer, i: int)
    ensures
        request.paths.len() < 2 ==> upload_begin(request) == Err::<
            (UploadState, UploadAction<Seq<char>>),
            Seq<char>,
        >("push requires at least one source and a destination"@),
        request.paths.len() >= 2 && 0 <= i < request.paths.len() && !path_valid(request.paths[i])
            ==> upload_begin(request) is Err,
        request.paths.len() >= 2 && (forall|j: int|
            0 <= j < request.paths.len() ==> path_valid(#[trigger] request.paths[j]))
            ==> upload_begin(request) is Ok,
{
}

} // verus!
