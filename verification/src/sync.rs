//! Bringing the partitions of a device up to date with a build: an upload of
//! every entry of each partition.

use crate::paths::{join_path, joined};
use crate::requests::{
    choose_partitions, chosen_partitions, parse_sync_request, sync_asked, Transfer, TransferOptions,
    TransferRequest,
};
use crate::text::{complains, copy_text, optional_text, plus, same_text, texts};
use crate::upload::{
    dry, dry_runs_begin, dry_runs_change_nothing, harmless, upload_action_view, upload_begin,
    upload_event_view, upload_fits, upload_next, Upload, UploadAction, UploadEvent, UploadState,
};
use vstd::prelude::*;

verus! {

/// What a synchronisation waits for.
#[derive(Debug)]
pub enum SyncWait {
    /// Whether the current partition was built.
    Partition,
    /// The entries of the current partition.
    Listing,
    /// The answer for the current upload.
    Upload,
    /// Nothing: it is over.
    Over,
}

/// What a synchronisation asks for.
#[derive(Debug)]
pub enum SyncAction<T> {
    /// Say whether a path of the host is a directory.
    IsDirectory(T),
    /// List what a directory of the host holds.
    ReadDirectory(T),
    /// What the current upload asks for.
    Upload(UploadAction<T>),
    /// It is over.
    Finish(Result<(), T>),
}

/// The answer to an action.
#[derive(Debug)]
pub enum SyncEvent<T, B, L> {
    /// Yes or no.
    Answer(bool),
    /// The paths that a directory holds.
    Entries {
        /// The paths that could be read.
        list: L,
        /// Why no more could be read, where that failed.
        broken: Option<T>,
    },
    /// It failed, for this reason.
    Failed(T),
    /// The answer for the current upload.
    Upload(UploadEvent<T, B, L>),
}

/// A synchronisation.
#[derive(Debug)]
pub struct Synchronisation {
    list_only: bool,
    all: bool,
    product_out: String,
    partitions: Vec<String>,
    name: String,
    entries: Vec<String>,
    broken: Option<String>,
    upload: Option<Upload>,
    waiting: SyncWait,
}

/// What a synchronisation is.
#[verifier::ext_equal]
pub ghost struct SyncState {
    /// Only print what would be done.
    pub list_only: bool,
    /// Whether a partition that was not built is passed over.
    pub all: bool,
    /// Where the build is.
    pub product_out: Seq<char>,
    /// The partitions that are left.
    pub partitions: Seq<Seq<char>>,
    /// The current partition.
    pub name: Seq<char>,
    /// The entries of the current partition that are left.
    pub entries: Seq<Seq<char>>,
    /// Why there are no more entries, where reading them failed.
    pub broken: Option<Seq<char>>,
    /// The current upload.
    pub upload: Option<UploadState>,
    /// What it waits for.
    pub waiting: SyncWait,
}

/// What an action says.
pub open spec fn sync_action_view(action: SyncAction<String>) -> SyncAction<Seq<char>> {
    match action {
        SyncAction::IsDirectory(path) => SyncAction::IsDirectory(path@),
        SyncAction::ReadDirectory(path) => SyncAction::ReadDirectory(path@),
        SyncAction::Upload(action) => SyncAction::Upload(upload_action_view(action)),
        SyncAction::Finish(Ok(())) => SyncAction::Finish(Ok(())),
        SyncAction::Finish(Err(error)) => SyncAction::Finish(Err(error@)),
    }
}

/// What an answer says.
pub open spec fn sync_event_view(event: SyncEvent<String, Vec<u8>, Vec<String>>) -> SyncEvent<
    Seq<char>,
    Seq<u8>,
    Seq<Seq<char>>,
> {
    match event {
        SyncEvent::Answer(yes) => SyncEvent::Answer(yes),
        SyncEvent::Entries { list, broken } => SyncEvent::Entries {
            list: texts(list@),
            broken: optional_text(broken),
        },
        SyncEvent::Failed(error) => SyncEvent::Failed(error@),
        SyncEvent::Upload(event) => SyncEvent::Upload(upload_event_view(event)),
    }
}

/// The upload of an entry of a partition.
pub open spec fn entry_upload(state: SyncState, entry: Seq<char>) -> Transfer {
    Transfer {
        options: TransferOptions {
            archive: false,
            dry_run: state.list_only,
            quiet: false,
            sync: true,
        },
        paths: seq![entry, "/"@ + state.name],
    }
}

/// A synchronisation that ends.
pub open spec fn sync_ends(state: SyncState, result: Result<(), Seq<char>>) -> (
    SyncState,
    SyncAction<Seq<char>>,
) {
    (SyncState { waiting: SyncWait::Over, upload: None, ..state }, SyncAction::Finish(result))
}

/// What a synchronisation does next: the next entry, then the next partition. Where
/// not all entries could be read, it ends after those that were.
pub open spec fn sync_advance(state: SyncState) -> (SyncState, SyncAction<Seq<char>>) {
    if state.entries.len() > 0 {
        match upload_begin(entry_upload(state, state.entries[0])) {
            Err(error) => sync_ends(state, Err(error)),
            Ok((upload, action)) => (
                SyncState {
                    entries: state.entries.drop_first(),
                    upload: Some(upload),
                    waiting: SyncWait::Upload,
                    ..state
                },
                SyncAction::Upload(action),
            ),
        }
    } else if state.broken is Some {
        sync_ends(state, Err(state.broken->0))
    } else if state.partitions.len() > 0 {
        let name = state.partitions[0];
        (
            SyncState {
                partitions: state.partitions.drop_first(),
                name,
                upload: None,
                waiting: SyncWait::Partition,
                ..state
            },
            SyncAction::IsDirectory(joined(state.product_out, name)),
        )
    } else {
        sync_ends(state, Ok(()))
    }
}

/// Whether an answer is one that a synchronisation can get.
pub open spec fn sync_fits<T, B, L>(state: SyncState, event: SyncEvent<T, B, L>) -> bool {
    match state.waiting {
        SyncWait::Partition => event is Answer,
        SyncWait::Listing => event is Entries || event is Failed,
        SyncWait::Upload => state.upload is Some && event is Upload && upload_fits(
            state.upload->0.waiting,
            event->Upload_0,
        ),
        SyncWait::Over => false,
    }
}

/// How a synchronisation goes on after an answer for its upload.
pub open spec fn sync_uploaded(
    state: SyncState,
    event: UploadEvent<Seq<char>, Seq<u8>, Seq<Seq<char>>>,
) -> (SyncState, SyncAction<Seq<char>>) {
    let (upload, action) = upload_next(state.upload->0, event);
    match action {
        UploadAction::Finish(Ok(())) => sync_advance(SyncState { upload: None, ..state }),
        UploadAction::Finish(Err(error)) => sync_ends(state, Err(error)),
        action => (SyncState { upload: Some(upload), ..state }, SyncAction::Upload(action)),
    }
}

/// How a synchronisation goes on after an answer.
pub open spec fn sync_next(
    state: SyncState,
    event: SyncEvent<Seq<char>, Seq<u8>, Seq<Seq<char>>>,
) -> (SyncState, SyncAction<Seq<char>>) {
    let source = joined(state.product_out, state.name);
    match event {
        SyncEvent::Answer(true) => (
            SyncState { waiting: SyncWait::Listing, ..state },
            SyncAction::ReadDirectory(source),
        ),
        SyncEvent::Answer(false) => if state.all {
            sync_advance(state)
        } else {
            sync_ends(state, Err("sync source is missing: "@ + source))
        },
        SyncEvent::Entries { list, broken } => sync_advance(
            SyncState { entries: list, broken, ..state },
        ),
        SyncEvent::Failed(error) => sync_ends(state, Err(error)),
        SyncEvent::Upload(event) => sync_uploaded(state, event),
    }
}

/// How a synchronisation begins: with what its arguments ask for, and where the
/// build is, if that is known.
pub open spec fn sync_begin(args: Seq<Seq<char>>, product_out: Option<Seq<char>>) -> Result<
    (SyncState, SyncAction<Seq<char>>),
    Seq<char>,
> {
    match (sync_asked(args), product_out) {
        (Err(error), _) => Err(error),
        (_, None) => Err("ANDROID_PRODUCT_OUT is not set"@),
        (Ok(asked), Some(product_out)) => match chosen_partitions(asked.partition) {
            Err(error) => Err(error),
            Ok(partitions) => Ok(
                sync_advance(
                    SyncState {
                        list_only: asked.list_only,
                        all: asked.partition is None || asked.partition->0 == "all"@,
                        product_out,
                        partitions,
                        name: seq![],
                        entries: seq![],
                        broken: None,
                        upload: None,
                        waiting: SyncWait::Over,
                    },
                ),
            ),
        },
    }
}

impl Synchronisation {
    /// What the synchronisation is.
    pub closed spec fn view(&self) -> SyncState {
        SyncState {
            list_only: self.list_only,
            all: self.all,
            product_out: self.product_out@,
            partitions: texts(self.partitions@),
            name: self.name@,
            entries: texts(self.entries@),
            broken: optional_text(self.broken),
            upload: match self.upload {
                Some(upload) => Some(upload@),
                None => None,
            },
            waiting: self.waiting,
        }
    }

    /// The upload is well formed.
    pub closed spec fn wf(&self) -> bool {
        self.upload is Some ==> self.upload->0.wf()
    }

    /// Ends the synchronisation.
    fn end(self, result: Result<(), String>) -> (ended: (Synchronisation, SyncAction<String>))
        ensures
            ended.0.wf(),
            (ended.0@, sync_action_view(ended.1)) == sync_ends(
                self@,
                match result {
                    Ok(()) => Ok(()),
                    Err(error) => Err(error@),
                },
            ),
    {
        let mut sync = self;
        sync.waiting = SyncWait::Over;
        sync.upload = None;
        (sync, SyncAction::Finish(result))
    }

    /// Does what comes next.
    fn advance(self) -> (next: (Synchronisation, SyncAction<String>))
        ensures
            next.0.wf(),
            (next.0@, sync_action_view(next.1)) == sync_advance(self@),
    {
        let mut sync = self;
        let ghost state = sync@;
        assert(texts(sync.entries@).len() == sync.entries@.len());
        assert(texts(sync.partitions@).len() == sync.partitions@.len());
        if sync.entries.len() > 0 {
            let entry: String = copy_text(&sync.entries[0]);
            assert(state.entries[0] == entry@);
            let mut paths: Vec<String> = Vec::new();
            paths.push(entry);
            paths.push(plus(copy_text("/"), &sync.name));
            let request = TransferRequest {
                options: TransferOptions {
                    archive: false,
                    dry_run: sync.list_only,
                    quiet: false,
                    sync: true,
                },
                paths,
            };
            assert(request@.paths =~= entry_upload(state, entry@).paths);
            return match Upload::begin(request) {
                Err(error) => sync.end(Err(error)),
                Ok((upload, action)) => {
                    let _ = sync.entries.remove(0);
                    assert(texts(sync.entries@) =~= state.entries.drop_first());
                    sync.upload = Some(upload);
                    sync.waiting = SyncWait::Upload;
                    (sync, SyncAction::Upload(action))
                },
            };
        }
        if let Some(error) = &sync.broken {
            let error: String = copy_text(error);
            return sync.end(Err(error));
        }
        if sync.partitions.len() > 0 {
            assert(state.partitions[0] == sync.partitions@[0]@);
            let name: String = sync.partitions.remove(0);
            assert(texts(sync.partitions@) =~= state.partitions.drop_first());
            let source: String = join_path(&sync.product_out, &name);
            sync.name = name;
            sync.upload = None;
            sync.waiting = SyncWait::Partition;
            return (sync, SyncAction::IsDirectory(source));
        }
        sync.end(Ok(()))
    }

    /// Begins a synchronisation.
    pub fn begin(args: &[String], product_out: Option<String>) -> (begun: Result<
        (Synchronisation, SyncAction<String>),
        String,
    >)
        ensures
            match sync_begin(texts(args@), optional_text(product_out)) {
                Ok((state, action)) => begun is Ok && begun->Ok_0.0.wf() && begun->Ok_0.0@ == state
                    && sync_action_view(begun->Ok_0.1) == action,
                Err(error) => complains(begun, error),
            },
    {
        let asked = match parse_sync_request(args) {
            Ok(asked) => asked,
            Err(error) => return Err(error),
        };
        let product_out: String = match product_out {
            Some(path) => path,
            None => return Err(copy_text("ANDROID_PRODUCT_OUT is not set")),
        };
        let partitions: Vec<String> = match choose_partitions(&asked.partition) {
            Ok(partitions) => partitions,
            Err(error) => return Err(error),
        };
        let all = match &asked.partition {
            None => true,
            Some(name) => same_text(name, "all"),
        };
        let sync = Synchronisation {
            list_only: asked.list_only,
            all,
            product_out,
            partitions,
            name: String::new(),
            entries: Vec::new(),
            broken: None,
            upload: None,
            waiting: SyncWait::Over,
        };
        proof {
            assert(sync@.name =~= seq![]);
            assert(sync@.entries =~= seq![]);
        }
        Ok(sync.advance())
    }

    /// Goes on after an answer.
    pub fn on_event(self, event: SyncEvent<String, Vec<u8>, Vec<String>>) -> (next: (
        Synchronisation,
        SyncAction<String>,
    ))
        requires
            self.wf(),
            sync_fits(self@, event),
        ensures
            next.0.wf(),
            (next.0@, sync_action_view(next.1)) == sync_next(self@, sync_event_view(event)),
    {
        let ghost state = self@;
        match event {
            SyncEvent::Answer(true) => {
                let mut sync = self;
                let source: String = join_path(&sync.product_out, &sync.name);
                sync.waiting = SyncWait::Listing;
                (sync, SyncAction::ReadDirectory(source))
            },
            SyncEvent::Answer(false) => if self.all {
                self.advance()
            } else {
                let source: String = join_path(&self.product_out, &self.name);
                self.end(Err(plus(copy_text("sync source is missing: "), &source)))
            },
            SyncEvent::Entries { list, broken } => {
                let mut sync = self;
                sync.entries = list;
                sync.broken = broken;
                sync.advance()
            },
            SyncEvent::Failed(error) => self.end(Err(error)),
            SyncEvent::Upload(event) => {
                let mut sync = self;
                match sync.upload {
                    None => {
                        sync.upload = None;
                        sync.advance()
                    },
                    Some(upload) => {
                        let (upload, action) = upload.on_event(event);
                        match action {
                            UploadAction::Finish(Ok(())) => {
                                sync.upload = None;
                                assert(sync@ == (SyncState { upload: None, ..state }));
                                sync.advance()
                            },
                            UploadAction::Finish(Err(error)) => {
                                sync.upload = None;
                                sync.end(Err(error))
                            },
                            action => {
                                sync.upload = Some(upload);
                                (sync, SyncAction::Upload(action))
                            },
                        }
                    },
                }
            },
        }
    }
}

/// What holds all through a synchronisation that only lists: its upload is a dry
/// run.
pub open spec fn only_lists(state: SyncState) -> bool {
    &&& state.list_only
    &&& state.upload matches Some(upload) ==> dry(upload)
}

/// Whether an action changes nothing: it reads from the host, or is one of an upload
/// that changes nothing on the device.
pub open spec fn sync_harmless(state: SyncState, action: SyncAction<Seq<char>>) -> bool {
    match action {
        SyncAction::IsDirectory(_) => true,
        SyncAction::ReadDirectory(_) => true,
        SyncAction::Upload(action) => state.upload is Some && harmless(state.upload->0, action),
        SyncAction::Finish(_) => true,
    }
}

/// Whatever comes next of a synchronisation that only lists changes nothing.
proof fn lemma_listing_advances(state: SyncState)
    requires
        only_lists(state),
    ensures
        only_lists(sync_advance(state).0),
        sync_harmless(sync_advance(state).0, sync_advance(state).1),
{
    if state.entries.len() > 0 {
        let request = entry_upload(state, state.entries[0]);
        if upload_begin(request) is Ok {
            dry_runs_begin(request);
        }
    }
}

/// A synchronisation that is asked only to list begins as one that does.
pub proof fn listings_begin(args: Seq<Seq<char>>, product_out: Option<Seq<char>>)
    requires
        sync_asked(args) is Ok,
        sync_asked(args)->Ok_0.list_only,
        sync_begin(args, product_out) is Ok,
    ensures
        only_lists(sync_begin(args, product_out)->Ok_0.0),
        sync_harmless(
            sync_begin(args, product_out)->Ok_0.0,
            sync_begin(args, product_out)->Ok_0.1,
        ),
{
    let asked = sync_asked(args)->Ok_0;
    lemma_listing_advances(
        SyncState {
            list_only: asked.list_only,
            all: asked.partition is None || asked.partition->0 == "all"@,
            product_out: product_out->0,
            partitions: chosen_partitions(asked.partition)->Ok_0,
            name: seq![],
            entries: seq![],
            broken: None,
            upload: None,
            waiting: SyncWait::Over,
        },
    );
}

/// A synchronisation that only lists changes nothing, at any step, and goes on as
/// one that only lists.
pub proof fn listings_change_nothing(
    state: SyncState,
    event: SyncEvent<Seq<char>, Seq<u8>, Seq<Seq<char>>>,
)
    requires
        only_lists(state),
        sync_fits(state, event),
    ensures
        only_lists(sync_next(state, event).0),
        sync_harmless(sync_next(state, event).0, sync_next(state, event).1),
{
    match event {
        SyncEvent::Answer(false) => lemma_listing_advances(state),
        SyncEvent::Entries { list, broken } => lemma_listing_advances(
            SyncState { entries: list, broken, ..state },
        ),
        SyncEvent::Upload(event) => {
            dry_runs_change_nothing(state.upload->0, event);
            lemma_listing_advances(SyncState { upload: None, ..state });
        },
        _ => {},
    }
}

/// Where not all entries could be read, the next of those that were is uploaded as
/// long as one is left. Only then does the synchronisation end, with the failure.
pub proof fn read_entries_come_before_the_failure(state: SyncState, error: Seq<char>)
    requires
        state.broken == Some(error),
    ensures
        ({
            let (next, action) = sync_advance(state);
            if state.entries.len() == 0 {
                (next, action) == sync_ends(state, Err(error))
            } else {
                match upload_begin(entry_upload(state, state.entries[0])) {
                    Ok((upload, first)) => {
                        &&& next.upload == Some(upload)
                        &&& action == SyncAction::Upload(first)
                        &&& next.entries == state.entries.drop_first()
                        &&& next.broken == Some(error)
                    },
                    Err(refusal) => (next, action) == sync_ends(state, Err(refusal)),
                }
            }
        }),
{
}

/// An entry of a partition is uploaded to the partition of that name on the device, only
/// where it is not current there, and is only shown where the synchronisation lists.
pub proof fn entries_are_uploaded_to_their_partition(state: SyncState, entry: Seq<char>)
    ensures
        ({
            let request = entry_upload(state, entry);
            &&& request.paths == seq![entry, "/"@ + state.name]
            &&& request.options.sync
            &&& request.options.dry_run == state.list_only
            &&& !request.options.quiet
            &&& !request.options.archive
        }),
{
}

/// The partitions are gone through in order, each from the directory of the build that has
/// its name, and a synchronisation ends well only once none is left.
pub proof fn partitions_are_gone_through(state: SyncState)
    requires
        state.entries.len() == 0,
        state.broken is None,
    ensures
        ({
            let (next, action) = sync_advance(state);
            &&& state.partitions.len() > 0 ==> {
                &&& action == SyncAction::IsDirectory(
                    joined(state.product_out, state.partitions[0]),
                )
                &&& next.name == state.partitions[0]
                &&& next.partitions == state.partitions.skip(1)
                &&& next.waiting is Partition
            }
            &&& action == SyncAction::<Seq<char>>::Finish(Ok(())) <==> state.partitions.len() == 0
        }),
{
}

/// A partition that was built is read. One that was not is passed over where all are asked
/// for, and is a failure where it was asked for by name.
pub proof fn missing_partitions(state: SyncState)
    requires
        state.waiting is Partition,
    ensures
        ({
            let source = joined(state.product_out, state.name);
            &&& sync_next(state, SyncEvent::Answer(true)).1 == SyncAction::ReadDirectory(source)
            &&& state.all ==> sync_next(state, SyncEvent::Answer(false)) == sync_advance(state)
            &&& !state.all ==> sync_next(state, SyncEvent::Answer(false)).1 == SyncAction::<
                Seq<char>,
            >::Finish(Err("sync source is missing: "@ + source))
        }),
{
}

/// A failure ends a synchronisation with its reason, and so does that of an upload; an
/// upload that went well is followed by what is left.
pub proof fn failures_end_a_synchronisation(
    state: SyncState,
    error: Seq<char>,
    event: UploadEvent<Seq<char>, Seq<u8>, Seq<Seq<char>>>,
)
    requires
        state.waiting is Upload,
        state.upload is Some,
        upload_fits(state.upload->0.waiting, event),
    ensures
        sync_next(state, SyncEvent::Failed(error)).1 == SyncAction::<Seq<char>>::Finish(
            Err(error),
        ),
        match upload_next(state.upload->0, event).1 {
            UploadAction::Finish(Err(reason)) => sync_next(state, SyncEvent::Upload(event)).1
                == SyncAction::<Seq<char>>::Finish(Err(reason)),
            UploadAction::Finish(Ok(())) => sync_next(state, SyncEvent::Upload(event))
                == sync_advance(SyncState { upload: None, ..state }),
            asked => sync_next(state, SyncEvent::Upload(event)).1 == SyncAction::Upload(asked),
        },
{
}

/// A synchronisation begins with what its arguments ask for.
pub proof fn synchronisations_begin(args: Seq<Seq<char>>, product_out: Seq<char>)
    requires
        sync_asked(args) is Ok,
        chosen_partitions(sync_asked(args)->Ok_0.partition) is Ok,
    ensures
        ({
            let asked = sync_asked(args)->Ok_0;
            let chosen = chosen_partitions(asked.partition)->Ok_0;
            let begun = sync_begin(args, Some(product_out));
            &&& begun is Ok
            &&& begun->Ok_0.0.list_only == asked.list_only
            &&& begun->Ok_0.0.all == (asked.partition is None || asked.partition == Some("all"@))
            &&& begun->Ok_0.0.product_out == product_out
            &&& chosen.len() > 0 ==> begun->Ok_0.1 == SyncAction::IsDirectory(
                joined(product_out, chosen[0]),
            ) && begun->Ok_0.0.partitions == chosen.skip(1)
            &&& sync_begin(args, None) == Err::<(SyncState, SyncAction<Seq<char>>), Seq<char>>(
                "ANDROID_PRODUCT_OUT is not set"@,
            )
        }),
{
}

} // verus!
