//! Installing a package through a server that other tools share.

use crate::error::{AdbResult, RustADBError};
use crate::text::{
    copy_text, decimal, decode, format_decimal, optional_text, same_bytes, texts, utf8_complaint,
};
use vstd::prelude::*;
use vstd::utf8::*;

verus! {

/// A device behind a server.
#[derive(Debug)]
pub struct ADBServerDevice {
    /// The serial number by which the server finds it.
    pub serial: Option<String>,
    /// The transport by which the server finds it.
    pub transport_id: Option<u32>,
}

/// What an installation waits for.
#[derive(Clone, Copy, Debug, PartialEq, Eq, Structural)]
pub enum InstallWait {
    /// The package file is opened.
    Opening,
    /// The device of a server connection is chosen; the file has this size.
    Choosing(u64),
    /// The binder service is asked for.
    Asking(u64),
    /// The device is chosen again, for the streamed service.
    ChoosingAgain(u64),
    /// The streamed service is asked for.
    AskingAgain,
    /// The package is sent.
    Sending,
    /// The package manager answers.
    Answering,
    /// The installation has ended.
    Ended,
}

/// What an installation asks for.
#[derive(Debug)]
pub enum InstallAction<T, L> {
    /// Open the package file, and hand back its size.
    OpenFile,
    /// Choose the device on a new connection to the server.
    SetTransport,
    /// Ask for the binder service with these arguments.
    AbbExec(L),
    /// Ask for the streamed service, for a file of this size.
    Install {
        /// The size.
        size: u64,
        /// The user.
        user: Option<T>,
        /// The options of the package manager.
        flags: L,
    },
    /// Send the package.
    SendFile,
    /// Read an answer of at most 1024 bytes.
    ReadAnswer,
    /// The installation has ended.
    Finish(Result<(), RustADBError<T>>),
}

/// What came of an action.
#[derive(Debug)]
pub enum InstallEvent<T, B> {
    /// The file is open, and has this size.
    Opened(u64),
    /// It is done.
    Done,
    /// The answer.
    Answer(B),
    /// It failed.
    Failed(RustADBError<T>),
}

/// What an action says.
pub open spec fn install_action_view(action: InstallAction<String, Vec<String>>) -> InstallAction<
    Seq<char>,
    Seq<Seq<char>>,
> {
    match action {
        InstallAction::OpenFile => InstallAction::OpenFile,
        InstallAction::SetTransport => InstallAction::SetTransport,
        InstallAction::AbbExec(arguments) => InstallAction::AbbExec(texts(arguments@)),
        InstallAction::Install { size, user, flags } => InstallAction::Install {
            size,
            user: optional_text(user),
            flags: texts(flags@),
        },
        InstallAction::SendFile => InstallAction::SendFile,
        InstallAction::ReadAnswer => InstallAction::ReadAnswer,
        InstallAction::Finish(Ok(())) => InstallAction::Finish(Ok(())),
        InstallAction::Finish(Err(error)) => InstallAction::Finish(Err(error@)),
    }
}

/// What came of an action, with what texts say.
pub open spec fn install_event_view(event: InstallEvent<String, Vec<u8>>) -> InstallEvent<
    Seq<char>,
    Seq<u8>,
> {
    match event {
        InstallEvent::Opened(size) => InstallEvent::Opened(size),
        InstallEvent::Done => InstallEvent::Done,
        InstallEvent::Answer(bytes) => InstallEvent::Answer(bytes@),
        InstallEvent::Failed(error) => InstallEvent::Failed(error@),
    }
}

/// The arguments of the binder service.
pub open spec fn abb_arguments(user: Option<Seq<char>>, flags: Seq<Seq<char>>, size: u64) -> Seq<
    Seq<char>,
> {
    seq!["package"@, "install"@] + (match user {
        Some(user) => seq!["--user"@, user],
        None => seq![],
    }) + flags + seq!["-S"@, decimal(size as nat)]
}

/// The verdict of the package manager.
pub open spec fn install_verdict(answer: Seq<u8>) -> Result<(), RustADBError<Seq<char>>> {
    if answer == encode_utf8("Success\n"@) {
        Ok(())
    } else if valid_utf8(answer) {
        Err(RustADBError::ADBRequestFailed(decode_utf8(answer)))
    } else {
        Err(RustADBError::InvalidText(utf8_complaint(answer)))
    }
}

/// Whether an event is one that an installation can get.
pub open spec fn install_fits<T, B>(wait: InstallWait, event: InstallEvent<T, B>) -> bool {
    match wait {
        InstallWait::Opening => event is Opened || event is Failed,
        InstallWait::Answering => event is Answer || event is Failed,
        InstallWait::Ended => false,
        _ => event is Done || event is Failed,
    }
}

/// How an installation goes on. Only the refusal of the binder service is no
/// failure: nothing was sent yet, so the streamed service takes its place.
pub open spec fn install_next(
    user: Option<Seq<char>>,
    flags: Seq<Seq<char>>,
    wait: InstallWait,
    event: InstallEvent<Seq<char>, Seq<u8>>,
) -> (InstallWait, InstallAction<Seq<char>, Seq<Seq<char>>>) {
    match (wait, event) {
        (InstallWait::Asking(size), InstallEvent::Failed(_)) => (
            InstallWait::ChoosingAgain(size),
            InstallAction::SetTransport,
        ),
        (_, InstallEvent::Failed(error)) => (
            InstallWait::Ended,
            InstallAction::Finish(Err(error)),
        ),
        (InstallWait::Opening, InstallEvent::Opened(size)) => (
            InstallWait::Choosing(size),
            InstallAction::SetTransport,
        ),
        (InstallWait::Choosing(size), _) => (
            InstallWait::Asking(size),
            InstallAction::AbbExec(abb_arguments(user, flags, size)),
        ),
        (InstallWait::ChoosingAgain(size), _) => (
            InstallWait::AskingAgain,
            InstallAction::Install { size, user, flags },
        ),
        (InstallWait::Asking(_), _) | (InstallWait::AskingAgain, _) => (
            InstallWait::Sending,
            InstallAction::SendFile,
        ),
        (InstallWait::Sending, _) => (InstallWait::Answering, InstallAction::ReadAnswer),
        (InstallWait::Answering, InstallEvent::Answer(answer)) => (
            InstallWait::Ended,
            InstallAction::Finish(install_verdict(answer)),
        ),
        _ => (InstallWait::Ended, InstallAction::Finish(Ok(()))),
    }
}

/// The installation of a package.
#[derive(Debug)]
pub struct StreamedInstall {
    user: Option<String>,
    flags: Vec<String>,
    wait: InstallWait,
}

/// Copies a list of texts.
fn copy_list(list: &[String]) -> (copy: Vec<String>)
    ensures
        texts(copy@) == texts(list@),
{
    let mut copy: Vec<String> = Vec::new();
    append_list(&mut copy, list);
    assert(texts(copy@) =~= texts(list@));
    copy
}

/// Appends texts to a list.
fn append_list(list: &mut Vec<String>, more: &[String])
    ensures
        texts(final(list)@) == texts(old(list)@) + texts(more@),
{
    let ghost before = texts(list@);
    let mut i: usize = 0;
    while i < more.len()
        invariant
            i <= more@.len(),
            texts(list@) =~= before + texts(more@).take(i as int),
        decreases more@.len() - i,
    {
        let ghost reached = texts(list@);
        let text: String = copy_text(&more[i]);
        let ghost word = text@;
        list.push(text);
        assert(texts(list@) =~= reached.push(word));
        assert(texts(more@)[i as int] == word);
        i = i + 1;
    }
    assert(texts(more@).take(more@.len() as int) =~= texts(more@));
}

/// Appends a text to a list.
fn append_word(list: &mut Vec<String>, word: &str)
    ensures
        texts(final(list)@) == texts(old(list)@).push(word@),
{
    let ghost before = texts(list@);
    list.push(copy_text(word));
    assert(texts(list@) =~= before.push(word@));
}

impl StreamedInstall {
    /// The user.
    pub closed spec fn user(&self) -> Option<Seq<char>> {
        optional_text(self.user)
    }

    /// The options of the package manager.
    pub closed spec fn flags(&self) -> Seq<Seq<char>> {
        texts(self.flags@)
    }

    /// What the installation waits for.
    pub closed spec fn wait(&self) -> InstallWait {
        self.wait
    }

    /// Writes the arguments of the binder service.
    fn arguments(&self, size: u64) -> (arguments: Vec<String>)
        ensures
            texts(arguments@) == abb_arguments(self.user(), self.flags(), size),
    {
        let mut arguments: Vec<String> = Vec::new();
        append_word(&mut arguments, "package");
        append_word(&mut arguments, "install");
        match &self.user {
            Some(user) => {
                append_word(&mut arguments, "--user");
                append_word(&mut arguments, user);
            },
            None => {},
        }
        append_list(&mut arguments, &self.flags);
        append_word(&mut arguments, "-S");
        append_word(&mut arguments, &format_decimal(size));
        assert(texts(arguments@) =~= abb_arguments(self.user(), self.flags(), size));
        arguments
    }

    /// The user.
    fn copy_user(&self) -> (user: Option<String>)
        ensures
            optional_text(user) == self.user(),
    {
        match &self.user {
            Some(user) => Some(copy_text(user)),
            None => None,
        }
    }

    /// The verdict of the package manager.
    fn judge(answer: &[u8]) -> (verdict: AdbResult<()>)
        ensures
            match install_verdict(answer@) {
                Ok(()) => verdict is Ok,
                Err(error) => verdict is Err && verdict->Err_0@ == error,
            },
    {
        let word: &str = "Success\n";
        proof {
            reveal_strlit("Success\n");
            is_ascii_chars_encode_utf8(word@);
        }
        if same_bytes(answer, word.as_bytes()) {
            return Ok(());
        }
        match decode(answer) {
            Ok(text) => Err(RustADBError::ADBRequestFailed(text)),
            Err(complaint) => Err(RustADBError::InvalidText(complaint)),
        }
    }

    /// Goes on with the installation.
    pub fn on_event(&mut self, event: InstallEvent<String, Vec<u8>>) -> (action: InstallAction<
        String,
        Vec<String>,
    >)
        requires
            install_fits(old(self).wait(), event),
        ensures
            final(self).user() == old(self).user(),
            final(self).flags() == old(self).flags(),
            (final(self).wait(), install_action_view(action)) == install_next(
                old(self).user(),
                old(self).flags(),
                old(self).wait(),
                install_event_view(event),
            ),
    {
        match (self.wait, event) {
            (InstallWait::Asking(size), InstallEvent::Failed(_)) => {
                self.wait = InstallWait::ChoosingAgain(size);
                InstallAction::SetTransport
            },
            (_, InstallEvent::Failed(error)) => {
                self.wait = InstallWait::Ended;
                InstallAction::Finish(Err(error))
            },
            (InstallWait::Opening, InstallEvent::Opened(size)) => {
                self.wait = InstallWait::Choosing(size);
                InstallAction::SetTransport
            },
            (InstallWait::Choosing(size), _) => {
                self.wait = InstallWait::Asking(size);
                InstallAction::AbbExec(self.arguments(size))
            },
            (InstallWait::ChoosingAgain(size), _) => {
                self.wait = InstallWait::AskingAgain;
                InstallAction::Install {
                    size,
                    user: self.copy_user(),
                    flags: copy_list(&self.flags),
                }
            },
            (InstallWait::Asking(_), _) | (InstallWait::AskingAgain, _) => {
                self.wait = InstallWait::Sending;
                InstallAction::SendFile
            },
            (InstallWait::Sending, _) => {
                self.wait = InstallWait::Answering;
                InstallAction::ReadAnswer
            },
            (InstallWait::Answering, InstallEvent::Answer(answer)) => {
                self.wait = InstallWait::Ended;
                InstallAction::Finish(Self::judge(&answer))
            },
            _ => {
                self.wait = InstallWait::Ended;
                InstallAction::Finish(Ok(()))
            },
        }
    }
}

impl ADBServerDevice {
    /// Begins the installation of a package.
    pub fn install(&self, user: Option<String>) -> (begun: (
        StreamedInstall,
        InstallAction<String, Vec<String>>,
    ))
        ensures
            begun.0.user() == optional_text(user),
            begun.0.flags() == Seq::<Seq<char>>::empty(),
            begun.0.wait() == InstallWait::Opening,
            begun.1 is OpenFile,
    {
        let flags: Vec<String> = Vec::new();
        assert(texts(flags@) =~= Seq::<Seq<char>>::empty());
        self.install_with_options(user, flags)
    }

    /// Begins the installation of a package with options of the package manager.
    pub fn install_with_options(&self, user: Option<String>, flags: Vec<String>) -> (begun: (
        StreamedInstall,
        InstallAction<String, Vec<String>>,
    ))
        ensures
            begun.0.user() == optional_text(user),
            begun.0.flags() == texts(flags@),
            begun.0.wait() == InstallWait::Opening,
            begun.1 is OpenFile,
    {
        (StreamedInstall { user, flags, wait: InstallWait::Opening }, InstallAction::OpenFile)
    }
}

/// How many steps an installation can still take.
pub open spec fn install_left(wait: InstallWait) -> nat {
    match wait {
        InstallWait::Opening => 7,
        InstallWait::Choosing(_) => 6,
        InstallWait::Asking(_) => 5,
        InstallWait::ChoosingAgain(_) => 4,
        InstallWait::AskingAgain => 3,
        InstallWait::Sending => 2,
        InstallWait::Answering => 1,
        InstallWait::Ended => 0,
    }
}

/// An installation ends.
pub proof fn installations_end(
    user: Option<Seq<char>>,
    flags: Seq<Seq<char>>,
    wait: InstallWait,
    event: InstallEvent<Seq<char>, Seq<u8>>,
)
    requires
        install_fits(wait, event),
    ensures
        install_left(install_next(user, flags, wait, event).0) < install_left(wait),
{
}

/// The streamed service is asked for only where the binder service was refused,
/// and so before any byte of the package was sent.
pub proof fn packages_are_sent_once(
    user: Option<Seq<char>>,
    flags: Seq<Seq<char>>,
    wait: InstallWait,
    event: InstallEvent<Seq<char>, Seq<u8>>,
)
    requires
        install_fits(wait, event),
    ensures
        ({
            let next = install_next(user, flags, wait, event);
            &&& next.1 is SendFile ==> next.0 is Sending && !(wait is Sending) && !(wait
                is Answering)
            &&& next.0 is ChoosingAgain ==> wait is Asking && event is Failed
        }),
{
}

/// The package manager is asked to install a package of a size, with the flags, and
/// for a user where one is given.
pub proof fn package_managers_are_asked(user: Seq<char>, flags: Seq<Seq<char>>, size: u64)
    ensures
        abb_arguments(None, flags, size) == seq!["package"@, "install"@] + flags + seq![
            "-S"@,
            decimal(size as nat),
        ],
        abb_arguments(Some(user), flags, size) == seq![
            "package"@,
            "install"@,
            "--user"@,
            user,
        ] + flags + seq!["-S"@, decimal(size as nat)],
{
    let nobody: Seq<Seq<char>> = seq![];
    assert(seq!["package"@, "install"@] + nobody =~= seq!["package"@, "install"@]);
    assert(seq!["package"@, "install"@] + seq!["--user"@, user] =~= seq![
        "package"@,
        "install"@,
        "--user"@,
        user,
    ]);
}

/// A package is installed in this order: the device is chosen, its package manager is
/// asked to take as many bytes as the file has, the file is sent, and the answer
/// decides.
pub proof fn installations_follow_an_order(
    user: Option<Seq<char>>,
    flags: Seq<Seq<char>>,
    size: u64,
    answer: Seq<u8>,
)
    ensures
        ({
            let opened = install_next(user, flags, InstallWait::Opening, InstallEvent::Opened(size));
            let chosen = install_next(user, flags, opened.0, InstallEvent::Done);
            let taken = install_next(user, flags, chosen.0, InstallEvent::Done);
            let sent = install_next(user, flags, taken.0, InstallEvent::Done);
            let answered = install_next(user, flags, sent.0, InstallEvent::Answer(answer));
            &&& opened.1 is SetTransport
            &&& chosen.1 == InstallAction::<Seq<char>, Seq<Seq<char>>>::AbbExec(
                abb_arguments(user, flags, size),
            )
            &&& taken.1 is SendFile
            &&& sent.1 is ReadAnswer
            &&& answered.0 is Ended
            &&& answered.1 == InstallAction::<Seq<char>, Seq<Seq<char>>>::Finish(
                install_verdict(answer),
            )
        }),
{
}

/// A device whose package manager cannot be asked directly is chosen again and asked by
/// the older service, with the same size, user and flags.
pub proof fn the_older_service_is_asked_instead(
    user: Option<Seq<char>>,
    flags: Seq<Seq<char>>,
    size: u64,
    error: RustADBError<Seq<char>>,
)
    ensures
        ({
            let refused = install_next(
                user,
                flags,
                InstallWait::Asking(size),
                InstallEvent::Failed(error),
            );
            let chosen = install_next(user, flags, refused.0, InstallEvent::Done);
            let taken = install_next(user, flags, chosen.0, InstallEvent::Done);
            &&& refused.1 is SetTransport
            &&& chosen.1 == InstallAction::<Seq<char>, Seq<Seq<char>>>::Install {
                size,
                user,
                flags,
            }
            &&& taken.1 is SendFile
            &&& install_next(user, flags, chosen.0, InstallEvent::Failed(error)).1
                == InstallAction::<Seq<char>, Seq<Seq<char>>>::Finish(Err(error))
        }),
{
}

/// A failure other than that of the first question ends an installation with it.
pub proof fn failures_end_an_installation(
    user: Option<Seq<char>>,
    flags: Seq<Seq<char>>,
    wait: InstallWait,
    error: RustADBError<Seq<char>>,
)
    requires
        !(wait is Asking),
    ensures
        install_next(user, flags, wait, InstallEvent::Failed(error)) == (
            InstallWait::Ended,
            InstallAction::<Seq<char>, Seq<Seq<char>>>::Finish(Err(error)),
        ),
{
}

/// Only one answer reports success, and any other is the reason of the failure.
pub proof fn only_one_answer_is_success(text: Seq<char>)
    ensures
        text == "Success\n"@ ==> install_verdict(encode_utf8(text)) is Ok,
        text != "Success\n"@ ==> install_verdict(encode_utf8(text)) == Err::<
            (),
            RustADBError<Seq<char>>,
        >(RustADBError::ADBRequestFailed(text)),
{
    encode_utf8_decode_utf8(text);
    encode_utf8_decode_utf8("Success\n"@);
    encode_utf8_valid_utf8(text);
}

} // verus!
