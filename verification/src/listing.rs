//! The lines that tell of devices, and the devices that come and go.

use crate::control::{stable_transport_id, transport_id, Context, Identity};
use crate::text::{
    chars_of, complains, copy_text, decimal, format_decimal, format_number, hex, lines,
    lines_end_at_newlines, lines_of,
    plus, same_text, string_of, texts,
};
use crate::usb::{identifiers, ADBDeviceInfo, DeviceFacts};
use vstd::prelude::*;

verus! {

/// The text that tells one device on the bus from another: its place, or else
/// its serial number, or else its identifiers.
pub open spec fn device_identity(device: DeviceFacts) -> Seq<char> {
    match (device.location_id, device.serial) {
        (Some(location), _) => hex(location as nat, 16),
        (None, Some(serial)) => serial,
        (None, None) => identifiers(device),
    }
}

/// The number of the transport of a device on the bus.
pub open spec fn usb_transport(device: DeviceFacts) -> u64 {
    transport_id("usb"@, device_identity(device))
}

/// Computes the number of the transport of a device on the bus.
pub fn usb_transport_id(device: &ADBDeviceInfo) -> (id: u64)
    ensures
        id == usb_transport(device@),
        id != 0,
{
    let identity: String = match (device.location_id, &device.serial) {
        (Some(location), _) => format_number(location, 16, 16),
        (None, Some(serial)) => copy_text(serial),
        (None, None) => plus(
            plus(format_number(device.vendor_id as u64, 16, 4), ":"),
            &format_number(device.product_id as u64, 16, 4),
        ),
    };
    stable_transport_id("usb", &identity)
}

/// The place of a device on the bus, or zero.
pub open spec fn location_of(device: DeviceFacts) -> u64 {
    match device.location_id {
        Some(location) => location,
        None => 0,
    }
}

/// The place of a device on the bus, or zero.
fn location(device: &ADBDeviceInfo) -> (location: u64)
    ensures
        location == location_of(device@),
{
    match device.location_id {
        Some(location) => location,
        None => 0,
    }
}

/// The context of a device on the bus, for a key.
pub fn usb_context(key: &str, device: &ADBDeviceInfo) -> (context: Context)
    ensures
        context@ == (Identity {
            key: key@,
            vendor: device@.vendor_id,
            product: device@.product_id,
            location: location_of(device@),
        }),
{
    Context {
        key: copy_text(key),
        vendor: device.vendor_id,
        product: device.product_id,
        location: location(device),
    }
}

/// A row of the table of devices on the bus.
pub open spec fn table_row(index: nat, device: DeviceFacts) -> Seq<char> {
    "#"@ + decimal(index) + "\t"@ + hex(device.vendor_id as nat, 4) + "\t"@ + hex(
        device.product_id as nat,
        4,
    ) + "\t"@ + hex(location_of(device) as nat, 16) + "\t"@ + device.device_description
}

/// Writes a row of the table of devices on the bus.
pub fn usb_table_row(index: usize, device: &ADBDeviceInfo) -> (row: String)
    ensures
        row@ == table_row(index as nat, device@),
{
    let number: String = plus(copy_text("#"), &format_decimal(index as u64));
    let vendor: String = plus(plus(number, "\t"), &format_number(device.vendor_id as u64, 16, 4));
    let product: String = plus(
        plus(vendor, "\t"),
        &format_number(device.product_id as u64, 16, 4),
    );
    let place: String = plus(plus(product, "\t"), &format_number(location(device), 16, 16));
    plus(plus(place, "\t"), &device.device_description)
}

/// Writes the two lines above the table of devices on the bus.
pub fn usb_table_head() -> (head: (String, String))
    ensures
        head.0@ == "Index\tVendor ID\tProduct ID\tLocation ID\tDevice Description"@,
        head.1@ == "-----\t---------\t----------\t-----------\t----------------"@,
{
    (
        copy_text("Index\tVendor ID\tProduct ID\tLocation ID\tDevice Description"),
        copy_text("-----\t---------\t----------\t-----------\t----------------"),
    )
}

/// The serial number in what a device says of itself.
pub open spec fn told_serial(details: Seq<char>) -> Seq<char> {
    if lines(details).len() > 0 {
        lines(details)[0]
    } else {
        "unknown"@
    }
}

/// Reads the serial number in what a device says of itself.
pub fn device_serial(details: &str) -> (serial: String)
    ensures
        serial@ == told_serial(details@),
{
    let chars: Vec<char> = chars_of(details);
    let list: Vec<String> = lines_of(&chars);
    assert(texts(list@).len() == list@.len());
    if list.len() > 0 {
        assert(texts(list@)[0] == list@[0]@);
        copy_text(&list[0])
    } else {
        copy_text("unknown")
    }
}

/// A text with each space made an underscore.
pub open spec fn underscored(text: Seq<char>) -> Seq<char> {
    text.map_values(
        |c: char|
            if c == ' ' {
                '_'
            } else {
                c
            },
    )
}

/// Makes each space of a text an underscore.
fn write_underscored(text: &str) -> (result: String)
    ensures
        result@ == underscored(text@),
{
    let chars: Vec<char> = chars_of(text);
    let mut written: Vec<char> = Vec::new();
    let mut i: usize = 0;
    while i < chars.len()
        invariant
            i <= chars@.len(),
            written@ =~= underscored(chars@).take(i as int),
        decreases chars@.len() - i,
    {
        if chars[i] == ' ' {
            written.push('_');
        } else {
            written.push(chars[i]);
        }
        i = i + 1;
    }
    assert(underscored(chars@).take(chars@.len() as int) =~= underscored(chars@));
    string_of(&written)
}

/// A line of what a device says of itself, or nothing.
pub open spec fn told_line(details: Seq<char>, i: int) -> Seq<char> {
    if i < lines(details).len() {
        lines(details)[i]
    } else {
        seq![]
    }
}

/// The line that tells of a device on the bus, from what it says of itself.
pub open spec fn usb_line(details: Seq<char>, device: DeviceFacts) -> Result<
    Seq<char>,
    Seq<char>,
> {
    if lines(details).len() == 0 {
        Err("missing serial"@)
    } else {
        Ok(
            lines(details)[0] + "\tdevice product:"@ + told_line(details, 2) + " model:"@
                + underscored(told_line(details, 1)) + " transport_id:"@ + decimal(
                usb_transport(device) as nat,
            ),
        )
    }
}

/// Takes a line out of a list, or nothing.
fn pick(list: &[String], i: usize) -> (line: String)
    ensures
        line@ == if i < list@.len() {
            list@[i as int]@
        } else {
            seq![]
        },
{
    if i < list.len() {
        copy_text(&list[i])
    } else {
        let nothing = String::new();
        assert(nothing@ =~= seq![]);
        nothing
    }
}

/// Writes the line that tells of a device on the bus.
pub fn usb_device_line(details: &str, device: &ADBDeviceInfo) -> (line: Result<String, String>)
    ensures
        match usb_line(details@, device@) {
            Ok(told) => line is Ok && line->Ok_0@ == told,
            Err(error) => complains(line, error),
        },
{
    let chars: Vec<char> = chars_of(details);
    let list: Vec<String> = lines_of(&chars);
    let ghost told = texts(list@);
    assert(told.len() == list@.len());
    if list.len() == 0 {
        return Err(copy_text("missing serial"));
    }
    proof {
        assert(told[0] == list@[0]@);
        if list@.len() > 1 {
            assert(told[1] == list@[1]@);
        }
        if list@.len() > 2 {
            assert(told[2] == list@[2]@);
        }
    }
    let identifier: String = copy_text(&list[0]);
    let product: String = plus(plus(identifier, "\tdevice product:"), &pick(&list, 2));
    let model: String = plus(plus(product, " model:"), &write_underscored(&pick(&list, 1)));
    Ok(plus(plus(model, " transport_id:"), &format_decimal(usb_transport_id(device))))
}

/// The line that tells of a device over TCP: its serial number is known where it
/// answers.
pub open spec fn wireless_line(address: Seq<char>, serial: Option<Seq<char>>) -> Seq<char> {
    match serial {
        Some(serial) => address + "\tdevice product:wireless model:"@ + serial + " transport_id:"@
            + decimal(transport_id("tcp"@, address) as nat),
        None => address + "\toffline transport_id:"@ + decimal(
            transport_id("tcp"@, address) as nat,
        ),
    }
}

/// Writes the line that tells of a device over TCP.
pub fn wireless_device_line(address: &str, serial: Option<&str>) -> (line: String)
    ensures
        line@ == wireless_line(
            address@,
            match serial {
                Some(serial) => Some(serial@),
                None => None,
            },
        ),
{
    let id: String = format_decimal(stable_transport_id("tcp", address));
    match serial {
        Some(serial) => plus(
            plus(
                plus(
                    plus(copy_text(address), "\tdevice product:wireless model:"),
                    serial,
                ),
                " transport_id:",
            ),
            &id,
        ),
        None => plus(plus(copy_text(address), "\toffline transport_id:"), &id),
    }
}

/// The path of a device on the bus.
pub open spec fn usb_path(device: DeviceFacts) -> Seq<char> {
    "usb:"@ + hex(device.vendor_id as nat, 4) + ":"@ + hex(device.product_id as nat, 4) + ":"@
        + hex(location_of(device) as nat, 16)
}

/// Writes the path of a device on the bus.
pub fn usb_device_path(device: &ADBDeviceInfo) -> (path: String)
    ensures
        path@ == usb_path(device@),
{
    let vendor: String = plus(copy_text("usb:"), &format_number(device.vendor_id as u64, 16, 4));
    let product: String = plus(
        plus(vendor, ":"),
        &format_number(device.product_id as u64, 16, 4),
    );
    plus(plus(product, ":"), &format_number(location(device), 16, 16))
}

/// Whether a text comes before another, character by character.
pub open spec fn text_before(left: Seq<char>, right: Seq<char>) -> bool
    decreases left.len(),
{
    if right.len() == 0 {
        false
    } else if left.len() == 0 {
        true
    } else if left[0] != right[0] {
        left[0] < right[0]
    } else {
        text_before(left.drop_first(), right.drop_first())
    }
}

/// No text comes before itself.
proof fn lemma_irreflexive(text: Seq<char>)
    ensures
        !text_before(text, text),
    decreases text.len(),
{
    if text.len() > 0 {
        lemma_irreflexive(text.drop_first());
    }
}

/// Of two texts that differ, one comes before the other.
proof fn lemma_total(left: Seq<char>, right: Seq<char>)
    ensures
        left == right || text_before(left, right) || text_before(right, left),
    decreases left.len(),
{
    if left.len() > 0 && right.len() > 0 {
        if left[0] == right[0] {
            lemma_total(left.drop_first(), right.drop_first());
            if left.drop_first() == right.drop_first() {
                assert(left =~= seq![left[0]] + left.drop_first());
                assert(right =~= seq![right[0]] + right.drop_first());
            }
        }
    } else if left.len() == 0 && right.len() == 0 {
        assert(left =~= right);
    }
}

/// What comes before a text that comes before another comes before the other.
proof fn lemma_transitive(a: Seq<char>, b: Seq<char>, c: Seq<char>)
    requires
        text_before(a, b),
        text_before(b, c),
    ensures
        text_before(a, c),
    decreases a.len(),
{
    if a.len() > 0 && b.len() > 0 && c.len() > 0 && a[0] == b[0] && b[0] == c[0] {
        lemma_transitive(a.drop_first(), b.drop_first(), c.drop_first());
    }
}

/// Whether a text comes before another.
#[verifier::loop_isolation(false)]
fn comes_before(left: &str, right: &str) -> (before: bool)
    ensures
        before == text_before(left@, right@),
{
    let a: Vec<char> = chars_of(left);
    let b: Vec<char> = chars_of(right);
    let mut i: usize = 0;
    assert(a@.skip(0) =~= a@);
    assert(b@.skip(0) =~= b@);
    while i < a.len() && i < b.len()
        invariant
            i <= a@.len(),
            i <= b@.len(),
            text_before(a@, b@) == text_before(a@.skip(i as int), b@.skip(i as int)),
        decreases a@.len() - i,
    {
        proof {
            assert(a@.skip(i as int).drop_first() =~= a@.skip(i + 1));
            assert(b@.skip(i as int).drop_first() =~= b@.skip(i + 1));
            assert(a@.skip(i as int)[0] == a@[i as int]);
            assert(b@.skip(i as int)[0] == b@[i as int]);
        }
        if a[i] != b[i] {
            return a[i] < b[i];
        }
        i = i + 1;
    }
    i < b.len()
}

/// Whether texts are in order, each of them once.
pub open spec fn texts_ordered(list: Seq<Seq<char>>) -> bool {
    forall|i: int, j: int|
        0 <= i < j < list.len() ==> text_before(#[trigger] list[i], #[trigger] list[j])
}

/// The texts of a list that are not in another.
pub open spec fn beyond(list: Seq<Seq<char>>, other: Seq<Seq<char>>) -> Seq<Seq<char>>
    decreases list.len(),
{
    if list.len() == 0 {
        seq![]
    } else if other.contains(list.last()) {
        beyond(list.drop_last(), other)
    } else {
        beyond(list.drop_last(), other).push(list.last())
    }
}

/// The lines that tell the state of devices.
pub open spec fn state_lines(serials: Seq<Seq<char>>, state: Seq<char>) -> Seq<Seq<char>> {
    serials.map_values(|serial: Seq<char>| serial + "\t"@ + state)
}

/// The devices that were last seen.
#[derive(Debug)]
pub struct DeviceTracker {
    serials: Vec<String>,
}

impl DeviceTracker {
    /// The serial numbers, in order.
    pub closed spec fn serials(&self) -> Seq<Seq<char>> {
        texts(self.serials@)
    }

    /// The serial numbers are in order, each of them once.
    pub open spec fn wf(&self) -> bool {
        texts_ordered(self.serials())
    }

    /// No device was seen.
    pub fn new() -> (tracker: DeviceTracker)
        ensures
            tracker.wf(),
            tracker.serials() == Seq::<Seq<char>>::empty(),
    {
        let tracker = DeviceTracker { serials: Vec::new() };
        assert(tracker.serials() =~= Seq::<Seq<char>>::empty());
        tracker
    }

    /// Adds a serial number.
    fn insert(&mut self, serial: &str)
        requires
            old(self).wf(),
        ensures
            final(self).wf(),
            final(self).serials().to_set() == old(self).serials().to_set().insert(serial@),
    {
        let ghost before = self.serials();
        let mut at: usize = 0;
        while at < self.serials.len() && comes_before(&self.serials[at], serial)
            invariant
                at <= self.serials@.len(),
                before == self.serials(),
                before == texts(self.serials@),
                forall|i: int| 0 <= i < at ==> text_before(#[trigger] before[i], serial@),
            decreases self.serials@.len() - at,
        {
            assert(before[at as int] == self.serials@[at as int]@);
            at = at + 1;
        }
        proof {
            if at < self.serials@.len() {
                assert(before[at as int] == self.serials@[at as int]@);
            }
        }
        if at < self.serials.len() && same_text(&self.serials[at], serial) {
            proof {
                assert(before.to_set().contains(before[at as int]));
                assert(before.to_set().insert(serial@) =~= before.to_set());
            }
            return;
        }
        self.serials.insert(at, copy_text(serial));
        proof {
            let after = self.serials();
            assert(after =~= before.insert(at as int, serial@));
            if at < before.len() {
                lemma_total(before[at as int], serial@);
            }
            assert forall|i: int, j: int| 0 <= i < j < after.len() implies text_before(
                #[trigger] after[i],
                #[trigger] after[j],
            ) by {
                if i < at && j > at {
                    assert(after[i] == before[i] && after[j] == before[j - 1]);
                } else if i < at && j < at {
                    assert(after[i] == before[i] && after[j] == before[j]);
                } else if i > at {
                    assert(after[i] == before[i - 1] && after[j] == before[j - 1]);
                } else if i == at {
                    assert(after[j] == before[j - 1]);
                    if j - 1 > at {
                        lemma_transitive(serial@, before[at as int], before[j - 1]);
                    }
                } else {
                    assert(after[i] == before[i]);
                }
            }
            assert forall|text: Seq<char>|
                after.to_set().contains(text) == before.to_set().insert(serial@).contains(text) by {
                if before.contains(text) {
                    let k = choose|k: int| 0 <= k < before.len() && before[k] == text;
                    if k < at {
                        assert(after[k] == text);
                    } else {
                        assert(after[k + 1] == text);
                    }
                }
                if after.contains(text) {
                    let k = choose|k: int| 0 <= k < after.len() && after[k] == text;
                    if k < at {
                        assert(before[k] == text);
                    } else if k > at {
                        assert(before[k - 1] == text);
                    }
                }
                assert(after[at as int] == serial@);
            }
            assert(after.to_set() =~= before.to_set().insert(serial@));
        }
    }

    /// Appends a line for each serial number that is not in another list.
    fn tell(&self, other: &DeviceTracker, state: &str, told: &mut Vec<String>)
        ensures
            texts(final(told)@) == texts(old(told)@) + state_lines(
                beyond(self.serials(), other.serials()),
                state@,
            ),
    {
        let ghost all = self.serials();
        let ghost start = texts(told@);
        let mut i: usize = 0;
        assert(all.take(0) =~= seq![]);
        assert(start + state_lines(beyond(all.take(0), other.serials()), state@) =~= start);
        while i < self.serials.len()
            invariant
                i <= self.serials@.len(),
                all == self.serials(),
                all == texts(self.serials@),
                texts(told@) == start + state_lines(
                    beyond(all.take(i as int), other.serials()),
                    state@,
                ),
            decreases self.serials@.len() - i,
        {
            let ghost before = texts(told@);
            let ghost taken = all.take(i + 1);
            let ghost list = beyond(all.take(i as int), other.serials());
            proof {
                assert(taken.drop_last() =~= all.take(i as int));
                assert(taken.last() == self.serials@[i as int]@);
            }
            if !other.holds(&self.serials[i]) {
                let line: String = plus(plus(copy_text(&self.serials[i]), "\t"), state);
                let ghost text = line@;
                told.push(line);
                proof {
                    assert(texts(told@) =~= before.push(text));
                    assert(state_lines(list.push(taken.last()), state@) =~= state_lines(
                        list,
                        state@,
                    ).push(text));
                    assert(texts(told@) =~= start + state_lines(
                        list.push(taken.last()),
                        state@,
                    ));
                }
            }
            i = i + 1;
        }
        assert(all.take(self.serials@.len() as int) =~= all);
    }

    /// Whether a serial number is there.
    fn holds(&self, serial: &str) -> (found: bool)
        ensures
            found == self.serials().contains(serial@),
    {
        let mut i: usize = 0;
        while i < self.serials.len()
            invariant
                i <= self.serials@.len(),
                forall|j: int| 0 <= j < i ==> self.serials()[j] != serial@,
            decreases self.serials@.len() - i,
        {
            assert(self.serials()[i as int] == self.serials@[i as int]@);
            if same_text(&self.serials[i], serial) {
                return true;
            }
            i = i + 1;
        }
        false
    }

    /// Takes the serial numbers that are seen now, and tells of the devices that
    /// came, and then of those that went.
    pub fn update(&mut self, seen: &[String]) -> (told: Vec<String>)
        requires
            old(self).wf(),
        ensures
            final(self).wf(),
            final(self).serials().to_set() == texts(seen@).to_set(),
            texts(told@) == state_lines(
                beyond(final(self).serials(), old(self).serials()),
                "device"@,
            ) + state_lines(beyond(old(self).serials(), final(self).serials()), "offline"@),
    {
        let mut current: DeviceTracker = DeviceTracker::new();
        let ghost all = texts(seen@);
        let mut i: usize = 0;
        assert(current.serials().to_set() =~= all.take(0).to_set());
        while i < seen.len()
            invariant
                i <= seen@.len(),
                all == texts(seen@),
                current.wf(),
                current.serials().to_set() == all.take(i as int).to_set(),
            decreases seen@.len() - i,
        {
            current.insert(&seen[i]);
            proof {
                let taken = all.take(i as int);
                let next = all.take(i + 1);
                assert(all[i as int] == seen@[i as int]@);
                assert(next =~= taken.push(all[i as int]));
                assert forall|text: Seq<char>|
                    next.to_set().contains(text) == taken.to_set().insert(
                        all[i as int],
                    ).contains(text) by {
                    if taken.contains(text) {
                        let k = choose|k: int| 0 <= k < taken.len() && taken[k] == text;
                        assert(next[k] == text);
                    }
                    if next.contains(text) {
                        let k = choose|k: int| 0 <= k < next.len() && next[k] == text;
                        if k < i {
                            assert(taken[k] == text);
                        }
                    }
                    assert(next[i as int] == all[i as int]);
                }
                assert(next.to_set() =~= taken.to_set().insert(all[i as int]));
            }
            i = i + 1;
        }
        assert(all.take(seen@.len() as int) =~= all);
        let mut told: Vec<String> = Vec::new();
        assert(texts(told@) =~= seq![]);
        current.tell(self, "device", &mut told);
        self.tell(&current, "offline", &mut told);
        proof {
            let came = state_lines(beyond(current.serials(), self.serials()), "device"@);
            let went = state_lines(beyond(self.serials(), current.serials()), "offline"@);
            assert(texts(told@) =~= came + went);
        }
        *self = current;
        told
    }
}

/// What is in a list but not in another is told exactly of those.
proof fn lemma_beyond(list: Seq<Seq<char>>, other: Seq<Seq<char>>)
    ensures
        forall|text: Seq<char>| #[trigger]
            beyond(list, other).contains(text) == (list.contains(text) && !other.contains(text)),
    decreases list.len(),
{
    if list.len() > 0 {
        let front = list.drop_last();
        lemma_beyond(front, other);
        assert forall|text: Seq<char>| #[trigger]
            beyond(list, other).contains(text) == (list.contains(text) && !other.contains(text)) by {
            let rest = beyond(front, other);
            assert(rest.contains(text) == (front.contains(text) && !other.contains(text)));
            if list.contains(text) {
                let k = choose|k: int| 0 <= k < list.len() && list[k] == text;
                if k < front.len() {
                    assert(front[k] == text);
                }
            }
            if front.contains(text) {
                let k = choose|k: int| 0 <= k < front.len() && front[k] == text;
                assert(list[k] == text);
            }
            assert(list[list.len() - 1] == list.last());
            let longer = rest.push(list.last());
            if rest.contains(text) {
                let k = choose|k: int| 0 <= k < rest.len() && rest[k] == text;
                assert(longer[k] == text);
            }
            if longer.contains(text) {
                let k = choose|k: int| 0 <= k < longer.len() && longer[k] == text;
                if k < rest.len() {
                    assert(rest[k] == text);
                }
            }
            assert(longer[rest.len() as int] == list.last());
        }
    }
}

/// Where the same devices are seen again, nothing is told.
pub proof fn unchanged_devices_are_silent(list: Seq<Seq<char>>, other: Seq<Seq<char>>)
    requires
        list.to_set() == other.to_set(),
    ensures
        beyond(list, other) == Seq::<Seq<char>>::empty(),
{
    lemma_beyond(list, other);
    let left = beyond(list, other);
    if left.len() > 0 {
        assert(left.contains(left[0]));
        assert(list.to_set().contains(left[0]));
        assert(other.to_set().contains(left[0]));
    }
    assert(left =~= Seq::<Seq<char>>::empty());
}

/// A device on the bus is known by its place, or else by its serial number, or else by its
/// identifiers.
pub proof fn devices_are_known_by_their_place(device: DeviceFacts, location: u64)
    ensures
        device.location_id == Some(location) ==> device_identity(device) == hex(
            location as nat,
            16,
        ) && location_of(device) == location,
        device.location_id is None && device.serial is Some ==> device_identity(device)
            == device.serial->0,
        device.location_id is None && device.serial is None ==> device_identity(device) == hex(
            device.vendor_id as nat,
            4,
        ) + ":"@ + hex(device.product_id as nat, 4),
        device.location_id is None ==> location_of(device) == 0,
        usb_transport(device) == transport_id("usb"@, device_identity(device)),
{
}

/// The lines that tell of a device: its serial number or address comes first.
pub proof fn lines_tell_of_devices(
    index: nat,
    device: DeviceFacts,
    address: Seq<char>,
    serial: Seq<char>,
)
    ensures
        table_row(index, device) == "#"@ + decimal(index) + "\t"@ + hex(
            device.vendor_id as nat,
            4,
        ) + "\t"@ + hex(device.product_id as nat, 4) + "\t"@ + hex(
            location_of(device) as nat,
            16,
        ) + "\t"@ + device.device_description,
        usb_path(device) == "usb:"@ + hex(device.vendor_id as nat, 4) + ":"@ + hex(
            device.product_id as nat,
            4,
        ) + ":"@ + hex(location_of(device) as nat, 16),
        wireless_line(address, Some(serial)) == address + "\tdevice product:wireless model:"@
            + serial + " transport_id:"@ + decimal(transport_id("tcp"@, address) as nat),
        wireless_line(address, None) == address + "\toffline transport_id:"@ + decimal(
            transport_id("tcp"@, address) as nat,
        ),
{
}

/// The line of a device on the bus holds what the device told of itself: the serial number
/// comes first of that, then the model, in which each space is shown as an underscore, and
/// then the product.
pub proof fn lines_hold_what_the_device_told(
    serial: Seq<char>,
    model: Seq<char>,
    product: Seq<char>,
    device: DeviceFacts,
)
    requires
        !serial.contains('\n'),
        !model.contains('\n'),
        !product.contains('\n'),
        !serial.contains('\r'),
        !model.contains('\r'),
        !product.contains('\r'),
    ensures
        ({
            let details = serial + "\n"@ + (model + "\n"@ + (product + "\n"@ + seq![]));
            &&& usb_line(details, device) == Ok::<Seq<char>, Seq<char>>(
                serial + "\tdevice product:"@ + product + " model:"@ + underscored(model)
                    + " transport_id:"@ + decimal(usb_transport(device) as nat),
            )
            &&& told_serial(details) == serial
            &&& usb_line(seq![], device) is Err
            &&& underscored(model).len() == model.len()
            &&& forall|i: int|
                0 <= i < model.len() ==> #[trigger] underscored(model)[i] == if model[i] == ' ' {
                    '_'
                } else {
                    model[i]
                }
        }),
{
    assert(serial.len() > 0 ==> serial.contains(serial.last()));
    assert(model.len() > 0 ==> model.contains(model.last()));
    assert(product.len() > 0 ==> product.contains(product.last()));
    let last = product + "\n"@ + Seq::<char>::empty();
    let rest = model + "\n"@ + last;
    lines_end_at_newlines(product, seq![]);
    lines_end_at_newlines(model, last);
    lines_end_at_newlines(serial, rest);
    let all = lines(serial + "\n"@ + rest);
    assert(all =~= seq![serial, model, product]);
}

/// Texts are ordered by the first character in which they differ, and a text comes before
/// those that are longer.
pub proof fn texts_are_ordered_by_their_first_difference(
    front: Seq<char>,
    left: char,
    right: char,
    left_rest: Seq<char>,
    right_rest: Seq<char>,
)
    ensures
        left != right ==> (text_before(
            front + seq![left] + left_rest,
            front + seq![right] + right_rest,
        ) <==> (left as u32) < (right as u32)),
        text_before(front, front + seq![left] + left_rest),
        !text_before(front + seq![left] + left_rest, front),
    decreases front.len(),
{
    let one = front + seq![left] + left_rest;
    let two = front + seq![right] + right_rest;
    if front.len() > 0 {
        let rest = front.drop_first();
        texts_are_ordered_by_their_first_difference(rest, left, right, left_rest, right_rest);
        assert(one.drop_first() =~= rest + seq![left] + left_rest);
        assert(two.drop_first() =~= rest + seq![right] + right_rest);
        assert(one[0] == front[0] && two[0] == front[0]);
    } else {
        assert(one[0] == left && two[0] == right);
    }
}

/// A device that came is told as there and one that went as not there; all others are not
/// told of. A line is the serial number, a tab and the state.
pub proof fn comings_and_goings_are_told(
    before: Seq<Seq<char>>,
    after: Seq<Seq<char>>,
    serial: Seq<char>,
    state: Seq<char>,
)
    ensures
        beyond(after, before).contains(serial) <==> after.contains(serial) && !before.contains(
            serial,
        ),
        beyond(before, after).contains(serial) <==> before.contains(serial) && !after.contains(
            serial,
        ),
        state_lines(before, state).len() == before.len(),
        forall|i: int|
            0 <= i < before.len() ==> #[trigger] state_lines(before, state)[i] == before[i]
                + "\t"@ + state,
{
    lemma_beyond(after, before);
    lemma_beyond(before, after);
}

/// A device that tells nothing of itself has no line, and an unknown serial number.
pub proof fn silent_devices_have_no_line(details: Seq<char>, device: DeviceFacts)
    ensures
        lines(details).len() == 0 ==> usb_line(details, device) == Err::<Seq<char>, Seq<char>>(
            "missing serial"@,
        ) && told_serial(details) == "unknown"@,
        lines(details).len() > 0 ==> usb_line(details, device) is Ok && told_serial(details)
            == lines(details)[0],
{
}

} // verus!
