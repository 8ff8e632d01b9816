//! Walking through the files of the host.
//!
//! The paths that a walk comes to are known by numbers, in the order in which they
//! are told: the root is number zero, and each path that a directory holds gets the
//! next number. So a walk does not depend on what can be written as text.

use crate::transfer::FileKind;
use vstd::prelude::*;

verus! {

/// What a walk waits for.
#[derive(Clone, Copy, Debug, PartialEq, Eq, Structural)]
pub enum WalkWait {
    /// What the last path is.
    Kind,
    /// That the last path, a directory, can be read.
    Opened,
    /// The next path of the last directory that was opened.
    Child,
    /// Nothing more.
    Ended,
}

/// What a walk asks for.
#[derive(Debug)]
pub enum WalkAction<T> {
    /// What a path is, without following a link.
    Inspect(usize),
    /// Begin to read what a directory holds.
    Open(usize),
    /// Tell the next path that a directory holds. It gets the next number.
    Next(usize),
    /// The walk has ended, with so many paths, each directory before what it holds.
    Finish(Result<usize, T>),
}

/// What became known.
#[derive(Debug)]
pub enum WalkEvent<T> {
    /// What the path is.
    Kind(FileKind),
    /// The directory can be read.
    Opened,
    /// The directory holds another path.
    Child,
    /// The directory holds no more.
    NoMore,
    /// It could not be known, for this reason.
    Failed(T),
}

/// How far a walk has come.
#[verifier::ext_equal]
pub ghost struct WalkState {
    /// How many paths were told.
    pub told: int,
    /// The directories that are being read, each beneath the one before.
    pub open: Seq<usize>,
    /// What is waited for.
    pub wait: WalkWait,
}

/// What is asked for, as plain values.
pub open spec fn walk_action_view(action: WalkAction<String>) -> WalkAction<Seq<char>> {
    match action {
        WalkAction::Inspect(path) => WalkAction::Inspect(path),
        WalkAction::Open(path) => WalkAction::Open(path),
        WalkAction::Next(path) => WalkAction::Next(path),
        WalkAction::Finish(Ok(count)) => WalkAction::Finish(Ok(count)),
        WalkAction::Finish(Err(error)) => WalkAction::Finish(Err(error@)),
    }
}

/// What became known, as plain values.
pub open spec fn walk_event_view(event: WalkEvent<String>) -> WalkEvent<Seq<char>> {
    match event {
        WalkEvent::Kind(kind) => WalkEvent::Kind(kind),
        WalkEvent::Opened => WalkEvent::Opened,
        WalkEvent::Child => WalkEvent::Child,
        WalkEvent::NoMore => WalkEvent::NoMore,
        WalkEvent::Failed(error) => WalkEvent::Failed(error@),
    }
}

/// A walk and what it asks for.
pub type WalkStep = (WalkState, WalkAction<Seq<char>>);

/// A walk that goes on with the last directory that is being read.
pub open spec fn walk_advance(state: WalkState) -> WalkStep {
    if state.open.len() == 0 {
        (
            WalkState { wait: WalkWait::Ended, ..state },
            WalkAction::Finish(Ok(state.told as usize)),
        )
    } else {
        (
            WalkState { wait: WalkWait::Child, ..state },
            WalkAction::Next(state.open.last()),
        )
    }
}

/// Whether an event is one that a walk can get. There is a number for every path.
pub open spec fn walk_fits<T>(state: WalkState, event: WalkEvent<T>) -> bool {
    match state.wait {
        WalkWait::Kind => event is Kind || event is Failed,
        WalkWait::Opened => event is Opened || event is Failed,
        WalkWait::Child => event is NoMore || event is Failed || (event is Child && state.told
            < usize::MAX),
        WalkWait::Ended => false,
    }
}

/// How a walk goes on.
pub open spec fn walk_next(state: WalkState, event: WalkEvent<Seq<char>>) -> WalkStep {
    match event {
        WalkEvent::Failed(error) => (
            WalkState { wait: WalkWait::Ended, ..state },
            WalkAction::Finish(Err(error)),
        ),
        WalkEvent::Kind(FileKind::Directory) => (
            WalkState { wait: WalkWait::Opened, ..state },
            WalkAction::Open((state.told - 1) as usize),
        ),
        WalkEvent::Kind(_) => walk_advance(state),
        WalkEvent::Opened => walk_advance(
            WalkState { open: state.open.push((state.told - 1) as usize), ..state },
        ),
        WalkEvent::Child => (
            WalkState { told: state.told + 1, wait: WalkWait::Kind, ..state },
            WalkAction::Inspect(state.told as usize),
        ),
        WalkEvent::NoMore => walk_advance(WalkState { open: state.open.drop_last(), ..state }),
    }
}

/// How a walk begins.
pub open spec fn walk_begin() -> WalkStep {
    (WalkState { told: 1, open: seq![], wait: WalkWait::Kind }, WalkAction::Inspect(0))
}

/// What holds all through a walk: each directory that is being read was told before
/// the one beneath it, and a directory is being read while its paths are waited for.
pub open spec fn walk_wf(state: WalkState) -> bool {
    &&& 1 <= state.told <= usize::MAX
    &&& forall|i: int| 0 <= i < state.open.len() ==> (#[trigger] state.open[i]) < state.told
    &&& forall|i: int, j: int|
        0 <= i < j < state.open.len() ==> (#[trigger] state.open[i]) < (#[trigger] state.open[j])
    &&& state.wait is Child ==> state.open.len() > 0
    &&& (state.wait is Kind || state.wait is Opened) ==> !state.open.contains(
        (state.told - 1) as usize,
    )
}

/// A walk through the files beneath a path.
#[derive(Debug)]
pub struct Walk {
    told: usize,
    open: Vec<usize>,
    wait: WalkWait,
}

impl Walk {
    /// How far the walk has come.
    pub closed spec fn view(&self) -> WalkState {
        WalkState { told: self.told as int, open: self.open@, wait: self.wait }
    }

    /// The walk is sound.
    pub open spec fn wf(&self) -> bool {
        walk_wf(self@)
    }

    /// Begins a walk at the path with number zero.
    pub fn begin() -> (begun: (Walk, WalkAction<String>))
        ensures
            begun.0.wf(),
            (begun.0@, walk_action_view(begun.1)) == walk_begin(),
    {
        let walk = Walk { told: 1, open: Vec::new(), wait: WalkWait::Kind };
        assert(walk@.open =~= seq![]);
        (walk, WalkAction::Inspect(0))
    }

    /// Goes on with the last directory that is being read.
    fn advance(self) -> (next: (Walk, WalkAction<String>))
        ensures
            (next.0@, walk_action_view(next.1)) == walk_advance(self@),
    {
        let mut walk = self;
        if walk.open.len() == 0 {
            walk.wait = WalkWait::Ended;
            let count: usize = walk.told;
            (walk, WalkAction::Finish(Ok(count)))
        } else {
            let path: usize = walk.open[walk.open.len() - 1];
            walk.wait = WalkWait::Child;
            (walk, WalkAction::Next(path))
        }
    }

    /// Goes on once something is known.
    pub fn on_event(self, event: WalkEvent<String>) -> (next: (Walk, WalkAction<String>))
        requires
            self.wf(),
            walk_fits(self@, event),
        ensures
            next.0.wf(),
            (next.0@, walk_action_view(next.1)) == walk_next(self@, walk_event_view(event)),
    {
        let ghost start = self@;
        proof {
            walks_stay_sound(start, walk_event_view(event));
        }
        let mut walk = self;
        match event {
            WalkEvent::Failed(error) => {
                walk.wait = WalkWait::Ended;
                (walk, WalkAction::Finish(Err(error)))
            },
            WalkEvent::Kind(FileKind::Directory) => {
                let path: usize = walk.told - 1;
                walk.wait = WalkWait::Opened;
                (walk, WalkAction::Open(path))
            },
            WalkEvent::Kind(_) => walk.advance(),
            WalkEvent::Opened => {
                let path: usize = walk.told - 1;
                walk.open.push(path);
                assert(walk@.open =~= start.open.push(path));
                walk.advance()
            },
            WalkEvent::Child => {
                let path: usize = walk.told;
                walk.told = path + 1;
                walk.wait = WalkWait::Kind;
                (walk, WalkAction::Inspect(path))
            },
            WalkEvent::NoMore => {
                let _ = walk.open.pop();
                assert(walk@.open =~= start.open.drop_last());
                walk.advance()
            },
        }
    }
}

/// A walk stays sound.
pub proof fn walks_stay_sound(state: WalkState, event: WalkEvent<Seq<char>>)
    requires
        walk_wf(state),
        walk_fits(state, event),
    ensures
        walk_wf(walk_next(state, event).0),
{
}

/// A directory is read only once it is known to be one, so that no link is ever
/// followed.
pub proof fn links_are_not_walked(state: WalkState, event: WalkEvent<Seq<char>>)
    requires
        walk_wf(state),
        walk_fits(state, event),
    ensures
        ({
            let (next, action) = walk_next(state, event);
            &&& action matches WalkAction::Open(path) ==> {
                &&& event == WalkEvent::<Seq<char>>::Kind(FileKind::Directory)
                &&& path == state.told - 1
            }
            &&& action matches WalkAction::Next(path) ==> {
                ||| state.open.contains(path)
                ||| event is Opened && path == state.told - 1
            }
        }),
{
    let (next, action) = walk_next(state, event);
    if let WalkAction::Next(path) = action {
        if next.open.len() <= state.open.len() {
            assert(state.open[next.open.len() - 1] == path);
        }
    }
}

/// A walk loses no path: each one that is told is looked at, gets a number after that
/// of the directory that holds it, and is in the count at the end. A walk ends well
/// only where every directory was read to its end.
pub proof fn walks_lose_nothing(state: WalkState, event: WalkEvent<Seq<char>>)
    requires
        walk_wf(state),
        walk_fits(state, event),
    ensures
        ({
            let (next, action) = walk_next(state, event);
            &&& next.told == state.told + (if event is Child {
                1int
            } else {
                0
            })
            &&& event is Child ==> {
                &&& action == WalkAction::<Seq<char>>::Inspect(state.told as usize)
                &&& state.open.last() < state.told
            }
            &&& event == WalkEvent::<Seq<char>>::Kind(FileKind::Directory) ==> action
                == WalkAction::<Seq<char>>::Open((state.told - 1) as usize)
            &&& event is Opened ==> next.open == state.open.push((state.told - 1) as usize)
                && action == WalkAction::<Seq<char>>::Next((state.told - 1) as usize)
            &&& next.open.len() < state.open.len() ==> event is NoMore && next.open
                == state.open.drop_last()
            &&& action matches WalkAction::Finish(Ok(count)) ==> count == next.told
                && next.open.len() == 0
        }),
{
}

/// A walk begins by looking at the path with number zero, the only one it knows.
pub proof fn walks_begin_at_their_root()
    ensures
        walk_begin().0.told == 1,
        walk_begin().0.open.len() == 0,
        walk_begin().0.wait is Kind,
        walk_begin().1 == WalkAction::<Seq<char>>::Inspect(0),
        walk_wf(walk_begin().0),
{
}

/// A walk goes on with the directory that was opened last; where none is left it ends
/// with the number of its paths. What fails ends it at once.
pub proof fn walks_go_on_in_the_last_directory(
    state: WalkState,
    kind: FileKind,
    error: Seq<char>,
)
    requires
        walk_wf(state),
        !(kind is Directory),
    ensures
        state.open.len() > 0 ==> walk_next(state, WalkEvent::Kind(kind)).1
            == WalkAction::<Seq<char>>::Next(state.open.last()),
        state.open.len() > 1 ==> walk_next(state, WalkEvent::NoMore).1
            == WalkAction::<Seq<char>>::Next(state.open[state.open.len() - 2]),
        state.open.len() == 1 ==> walk_next(state, WalkEvent::NoMore).1
            == WalkAction::<Seq<char>>::Finish(Ok(state.told as usize)),
        walk_next(state, WalkEvent::Opened).1 == WalkAction::<Seq<char>>::Next(
            (state.told - 1) as usize,
        ),
        walk_next(state, WalkEvent::Failed(error)).1 == WalkAction::<Seq<char>>::Finish(Err(error)),
        walk_next(state, WalkEvent::Failed(error)).0.wait is Ended,
{
}

} // verus!
