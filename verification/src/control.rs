//! The control sockets of the daemons: their names, how a daemon is started, and
//! how many requests it takes at a time.

use crate::bytes::{fnv1a, hash_bytes, push_bytes};
use crate::text::{complains, copy_text, format_number, hex, numbers_are_read_back, plus};
use vstd::prelude::*;
use vstd::utf8::*;

verus! {

/// What tells one USB device from another, for one key.
#[derive(Debug)]
pub struct Context {
    /// The path of the key.
    pub key: String,
    /// The vendor identifier.
    pub vendor: u16,
    /// The product identifier.
    pub product: u16,
    /// The place on the bus.
    pub location: u64,
}

/// What a context says.
#[verifier::ext_equal]
pub ghost struct Identity {
    /// The path of the key.
    pub key: Seq<char>,
    /// The vendor identifier.
    pub vendor: u16,
    /// The product identifier.
    pub product: u16,
    /// The place on the bus.
    pub location: u64,
}

impl Context {
    /// What the context says.
    pub open spec fn view(&self) -> Identity {
        Identity {
            key: self.key@,
            vendor: self.vendor,
            product: self.product,
            location: self.location,
        }
    }
}

/// The text that names the socket of a USB device before it is hashed.
pub open spec fn usb_identity(identity: Identity) -> Seq<char> {
    identity.key + "\0"@ + hex(identity.vendor as nat, 4) + ":"@ + hex(identity.product as nat, 4)
        + ":"@ + hex(identity.location as nat, 16)
}

/// The file name of the socket of a USB device: a hash, so that it stays short.
pub open spec fn usb_socket(identity: Identity) -> Seq<char> {
    "mab3-"@ + hex(fnv1a(encode_utf8(usb_identity(identity))) as nat, 16) + ".sock"@
}

/// Builds the file name of the socket of a USB device.
pub fn usb_socket_name(context: &Context) -> (name: String)
    ensures
        name@ == usb_socket(context@),
{
    let identity: String = plus(
        plus(
            plus(
                plus(
                    plus(
                        plus(copy_text(&context.key), "\0"),
                        &format_number(context.vendor as u64, 16, 4),
                    ),
                    ":",
                ),
                &format_number(context.product as u64, 16, 4),
            ),
            ":",
        ),
        &format_number(context.location, 16, 16),
    );
    let hash: u64 = hash_bytes(identity.as_str().as_bytes());
    plus(plus(copy_text("mab3-"), &format_number(hash, 16, 16)), ".sock")
}

/// The file name of the socket of a wireless device.
pub open spec fn wireless_socket(key: Seq<char>, address: Seq<char>) -> Seq<char> {
    "mabw-"@ + hex(fnv1a(encode_utf8(key + "\0"@ + address)) as nat, 16) + ".sock"@
}

/// Builds the file name of the socket of a wireless device.
pub fn wireless_socket_name(key: &str, address: &str) -> (name: String)
    ensures
        name@ == wireless_socket(key@, address@),
{
    let identity: String = plus(plus(copy_text(key), "\0"), address);
    let hash: u64 = hash_bytes(identity.as_str().as_bytes());
    plus(plus(copy_text("mabw-"), &format_number(hash, 16, 16)), ".sock")
}

/// The powers of sixteen.
pub open spec fn power16(n: nat) -> nat
    decreases n,
{
    if n == 0 {
        1
    } else {
        16 * power16((n - 1) as nat)
    }
}

/// A number below a power of sixteen has that many hexadecimal digits.
proof fn lemma_hex_width(value: nat, width: nat)
    requires
        value < power16(width),
    ensures
        hex(value, width).len() == width,
    decreases width,
{
    if width > 0 {
        lemma_hex_width(value / 16, (width - 1) as nat);
    }
}

/// The name of a socket is short whatever the path of the key is.
pub proof fn socket_names_are_short(identity: Identity, key: Seq<char>, address: Seq<char>)
    ensures
        usb_socket(identity).len() == 26,
        wireless_socket(key, address).len() == 26,
{
    reveal_strlit("mab3-");
    reveal_strlit("mabw-");
    reveal_strlit(".sock");
    reveal_with_fuel(power16, 17);
    assert(power16(16) == 0x1_0000_0000_0000_0000);
    lemma_hex_width(fnv1a(encode_utf8(usb_identity(identity))) as nat, 16);
    lemma_hex_width(fnv1a(encode_utf8(key + "\0"@ + address)) as nat, 16);
}

/// Which daemon is started.
#[derive(Clone, Copy, Debug, PartialEq, Eq, Structural)]
pub enum DaemonKind {
    /// The one for a USB device.
    Usb,
    /// The one for a wireless device.
    Wireless,
}

/// How far the start of a daemon has come.
#[derive(Clone, Copy, Debug, PartialEq, Eq, Structural)]
pub enum Startup {
    /// The socket is probed.
    Probing,
    /// A socket that does not answer is removed; whether that works does not
    /// matter.
    Dropping,
    /// A socket that is left over is removed.
    Clearing,
    /// The daemon is launched.
    Launching,
    /// The socket is tried; so many tries are left, this one included.
    Trying(u8),
    /// A moment passes; so many tries are left.
    Pausing(u8),
    /// The log of the daemon is read.
    Reading,
    /// The daemon answers.
    Ready,
}

/// What became of a step in the start of a daemon.
#[derive(Clone, Copy, Debug, PartialEq, Eq, Structural)]
pub enum Outcome {
    /// The daemon answered, or the step is done.
    Yes,
    /// There was a socket but no answer.
    Silent,
    /// There was none.
    No,
}

/// How often the socket of a daemon is tried.
pub open spec fn tries(kind: DaemonKind) -> u8 {
    match kind {
        DaemonKind::Usb => 80,
        DaemonKind::Wireless => 100,
    }
}

/// How the start of a daemon goes on. A step that is not a question and fails
/// ends the start.
pub open spec fn startup_next(kind: DaemonKind, phase: Startup, outcome: Outcome) -> Startup {
    match phase {
        Startup::Probing => match outcome {
            Outcome::Yes => Startup::Ready,
            Outcome::Silent => Startup::Dropping,
            Outcome::No => Startup::Clearing,
        },
        Startup::Dropping => Startup::Clearing,
        Startup::Clearing => Startup::Launching,
        Startup::Launching => Startup::Trying(tries(kind)),
        Startup::Trying(left) => if outcome == Outcome::Yes {
            Startup::Ready
        } else if left == 0 {
            Startup::Reading
        } else {
            Startup::Pausing((left - 1) as u8)
        },
        Startup::Pausing(left) => if left == 0 {
            Startup::Reading
        } else {
            Startup::Trying(left)
        },
        Startup::Reading => Startup::Reading,
        Startup::Ready => Startup::Ready,
    }
}

impl Startup {
    /// Goes on with the start of a daemon.
    pub fn next(self, kind: DaemonKind, outcome: Outcome) -> (phase: Startup)
        ensures
            phase == startup_next(kind, self, outcome),
    {
        match self {
            Startup::Probing => match outcome {
                Outcome::Yes => Startup::Ready,
                Outcome::Silent => Startup::Dropping,
                Outcome::No => Startup::Clearing,
            },
            Startup::Dropping => Startup::Clearing,
            Startup::Clearing => Startup::Launching,
            Startup::Launching => Startup::Trying(
                match kind {
                    DaemonKind::Usb => 80,
                    DaemonKind::Wireless => 100,
                },
            ),
            Startup::Trying(left) => if outcome == Outcome::Yes {
                Startup::Ready
            } else if left == 0 {
                Startup::Reading
            } else {
                Startup::Pausing(left - 1)
            },
            Startup::Pausing(left) => if left == 0 {
                Startup::Reading
            } else {
                Startup::Trying(left)
            },
            Startup::Reading => Startup::Reading,
            Startup::Ready => Startup::Ready,
        }
    }
}

/// How many steps the start of a daemon can still take.
pub open spec fn startup_left(phase: Startup) -> nat {
    match phase {
        Startup::Probing => 1004,
        Startup::Dropping => 1003,
        Startup::Clearing => 1002,
        Startup::Launching => 1001,
        Startup::Trying(left) => 2 * left as nat + 1,
        Startup::Pausing(left) => 2 * left as nat + 2,
        Startup::Reading | Startup::Ready => 0,
    }
}

/// The start of a daemon ends: it answers, or its log is read.
pub proof fn startup_ends(kind: DaemonKind, phase: Startup, outcome: Outcome)
    requires
        !(phase is Reading),
        !(phase is Ready),
    ensures
        startup_left(startup_next(kind, phase, outcome)) < startup_left(phase),
{
}

/// The failure of a daemon that does not answer.
pub open spec fn not_ready(kind: DaemonKind, log: Seq<char>) -> Seq<char> {
    match kind {
        DaemonKind::Usb => "direct USB daemon did not become ready: "@ + log,
        DaemonKind::Wireless => "wireless forward daemon did not become ready: "@ + log,
    }
}

/// Builds the failure of a daemon that does not answer.
pub fn startup_failure(kind: DaemonKind, log: &str) -> (error: String)
    ensures
        error@ == not_ready(kind, log@),
{
    match kind {
        DaemonKind::Usb => plus(copy_text("direct USB daemon did not become ready: "), log),
        DaemonKind::Wireless => plus(
            copy_text("wireless forward daemon did not become ready: "),
            log,
        ),
    }
}

/// How many requests a daemon works on at a time.
pub const MAX_CONCURRENT_REQUESTS: usize = 12;

/// Counts the requests that a daemon works on.
#[derive(Debug)]
pub struct RequestGate {
    active: usize,
}

impl RequestGate {
    /// The number of requests.
    pub closed spec fn active(&self) -> nat {
        self.active as nat
    }

    /// There are never too many requests.
    pub open spec fn wf(&self) -> bool {
        self.active() <= MAX_CONCURRENT_REQUESTS
    }

    /// A gate that no request has passed.
    pub fn new() -> (gate: RequestGate)
        ensures
            gate.wf(),
            gate.active() == 0,
    {
        RequestGate { active: 0 }
    }

    /// Lets a request in, unless there are too many.
    pub fn enter(&mut self) -> (entered: Result<(), String>)
        requires
            old(self).wf(),
        ensures
            final(self).wf(),
            if old(self).active() < MAX_CONCURRENT_REQUESTS {
                entered is Ok && final(self).active() == old(self).active() + 1
            } else {
                &&& complains(entered, "too many concurrent requests"@)
                &&& final(self).active() == old(self).active()
            },
    {
        if self.active < MAX_CONCURRENT_REQUESTS {
            self.active = self.active + 1;
            Ok(())
        } else {
            Err(copy_text("too many concurrent requests"))
        }
    }

    /// Lets a request out.
    pub fn leave(&mut self)
        requires
            old(self).wf(),
            old(self).active() > 0,
        ensures
            final(self).wf(),
            final(self).active() == old(self).active() - 1,
    {
        self.active = self.active - 1;
    }
}

/// After how many nanoseconds without a request a daemon stops.
pub const IDLE_LIMIT: u64 = 60_000_000_000;

/// Whether a daemon stops: nothing works on a request, and none has come for
/// long enough.
pub fn is_idle(busy: bool, nanoseconds: u64) -> (idle: bool)
    ensures
        idle == (!busy && nanoseconds > IDLE_LIMIT),
{
    !busy && nanoseconds > IDLE_LIMIT
}

/// The name of a transport of a kind: a number that is not zero and that is the
/// same at every run.
pub open spec fn transport_id(kind: Seq<char>, identity: Seq<char>) -> u64 {
    let hash = fnv1a(encode_utf8(kind).push(0) + encode_utf8(identity));
    if hash == 0 {
        1
    } else {
        hash
    }
}

/// Computes the name of a transport.
pub fn stable_transport_id(kind: &str, identity: &str) -> (id: u64)
    ensures
        id == transport_id(kind@, identity@),
        id != 0,
{
    let mut bytes: Vec<u8> = Vec::new();
    push_bytes(&mut bytes, kind.as_bytes());
    assert(bytes@ =~= encode_utf8(kind@));
    bytes.push(0);
    push_bytes(&mut bytes, identity.as_bytes());
    let hash: u64 = hash_bytes(&bytes);
    if hash == 0 {
        1
    } else {
        hash
    }
}

/// Devices with different keys, identifiers or places have different identities, and none
/// is that of another.
pub proof fn identities_tell_devices_apart(left: Identity, right: Identity)
    requires
        usb_identity(left) == usb_identity(right),
    ensures
        left == right,
{
    reveal_strlit("\0");
    reveal_strlit(":");
    lemma_identity(left);
    lemma_identity(right);
    let text = usb_identity(left);
    let n = text.len() as int;
    assert(left.key =~= text.take(n - 27));
    assert(right.key =~= text.take(n - 27));
    assert(hex(left.vendor as nat, 4) =~= text.subrange(n - 26, n - 22));
    assert(hex(right.vendor as nat, 4) =~= text.subrange(n - 26, n - 22));
    assert(hex(left.product as nat, 4) =~= text.subrange(n - 21, n - 17));
    assert(hex(right.product as nat, 4) =~= text.subrange(n - 21, n - 17));
    assert(hex(left.location as nat, 16) =~= text.subrange(n - 16, n));
    assert(hex(right.location as nat, 16) =~= text.subrange(n - 16, n));
    numbers_are_read_back(left.vendor as nat, 16, 4);
    numbers_are_read_back(right.vendor as nat, 16, 4);
    numbers_are_read_back(left.product as nat, 16, 4);
    numbers_are_read_back(right.product as nat, 16, 4);
    numbers_are_read_back(left.location as nat, 16, 16);
    numbers_are_read_back(right.location as nat, 16, 16);
}

/// The lengths of the parts of an identity.
proof fn lemma_identity(identity: Identity)
    ensures
        hex(identity.vendor as nat, 4).len() == 4,
        hex(identity.product as nat, 4).len() == 4,
        hex(identity.location as nat, 16).len() == 16,
        usb_identity(identity).len() == identity.key.len() + 27,
{
    reveal_strlit("\0");
    reveal_strlit(":");
    reveal_with_fuel(power16, 17);
    assert(power16(4) == 65536);
    assert(power16(16) == 0x1_0000_0000_0000_0000);
    lemma_hex_width(identity.vendor as nat, 4);
    lemma_hex_width(identity.product as nat, 4);
    lemma_hex_width(identity.location as nat, 16);
}

/// The socket of a daemon is named after the hash of what it is for: the key, and the
/// device on the bus or the address.
pub proof fn sockets_are_named_after_their_device(
    identity: Identity,
    key: Seq<char>,
    address: Seq<char>,
)
    ensures
        usb_identity(identity) == identity.key + "\0"@ + hex(identity.vendor as nat, 4) + ":"@
            + hex(identity.product as nat, 4) + ":"@ + hex(identity.location as nat, 16),
        usb_socket(identity) == "mab3-"@ + hex(
            fnv1a(encode_utf8(usb_identity(identity))) as nat,
            16,
        ) + ".sock"@,
        wireless_socket(key, address) == "mabw-"@ + hex(
            fnv1a(encode_utf8(key + "\0"@ + address)) as nat,
            16,
        ) + ".sock"@,
{
}

/// The number of a transport is the hash of its kind, a zero and its identity. Zero is
/// never the number of one.
pub proof fn transports_are_numbered_by_hash(kind: Seq<char>, identity: Seq<char>)
    ensures
        ({
            let hash = fnv1a(encode_utf8(kind) + seq![0u8] + encode_utf8(identity));
            &&& transport_id(kind, identity) != 0
            &&& hash != 0 ==> transport_id(kind, identity) == hash
            &&& hash == 0 ==> transport_id(kind, identity) == 1
        }),
{
    assert(encode_utf8(kind).push(0) + encode_utf8(identity) =~= encode_utf8(kind) + seq![0u8]
        + encode_utf8(identity));
}

/// A daemon is ready only once it answered. Where one answers at once nothing else is
/// done; where none does, what is left of it is cleared before a new one is launched, and
/// what is there but silent is dropped first.
pub proof fn only_an_answer_makes_a_daemon_ready(
    kind: DaemonKind,
    phase: Startup,
    outcome: Outcome,
)
    ensures
        ({
            let next = startup_next(kind, phase, outcome);
            &&& startup_next(kind, Startup::Probing, Outcome::Yes) is Ready
            &&& startup_next(kind, Startup::Probing, Outcome::No) is Clearing
            &&& startup_next(kind, Startup::Probing, Outcome::Silent) is Dropping
            &&& next is Ready && !(phase is Ready) ==> outcome == Outcome::Yes && (phase is Probing
                || phase is Trying)
            &&& next is Launching ==> phase is Clearing
            &&& next is Clearing ==> phase is Dropping || phase is Probing && outcome
                == Outcome::No
            &&& phase is Launching ==> next == Startup::Trying(
                if kind == DaemonKind::Usb {
                    80
                } else {
                    100
                },
            )
            &&& phase is Dropping ==> next is Clearing
            &&& phase is Clearing ==> next is Launching
        }),
{
}

/// A daemon that was launched is tried again after each pause, once less each time, until
/// it answers or no try is left.
pub proof fn tries_are_counted(kind: DaemonKind, left: u8, outcome: Outcome)
    requires
        left > 0,
    ensures
        startup_next(kind, Startup::Trying(left), Outcome::Yes) is Ready,
        outcome != Outcome::Yes ==> startup_next(kind, Startup::Trying(left), outcome)
            == Startup::Pausing((left - 1) as u8),
        left > 1 ==> startup_next(kind, Startup::Pausing((left - 1) as u8), outcome)
            == Startup::Trying((left - 1) as u8),
        startup_next(kind, Startup::Pausing(0), outcome) is Reading,
{
}

/// The bounds of a daemon: twelve requests at a time, and a minute without one.
pub proof fn bounds_of_a_daemon()
    ensures
        MAX_CONCURRENT_REQUESTS == 12,
        IDLE_LIMIT == 60 * 1000 * 1000 * 1000,
{
}

/// A daemon that does not answer is named, and the place of its records is told.
pub proof fn silent_daemons_are_named(log: Seq<char>)
    ensures
        not_ready(DaemonKind::Usb, log) == "direct USB daemon did not become ready: "@ + log,
        not_ready(DaemonKind::Wireless, log) == "wireless forward daemon did not become ready: "@
            + log,
{
}

} // verus!
