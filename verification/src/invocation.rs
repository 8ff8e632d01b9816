//! The command line: which device it selects, and the commands that need none.

use crate::text::{
    chars_of, complains, copy_text, decimal, decimals_are_read_back, decode, empty_text,
    format_decimal, hex, numbers_are_read_back, optional_text, plus, read_unsigned, same_text,
    string_of, texts, trim, trimmed, unsigned_complaint, unsigned_digits, unsigned_value,
    utf8_complaint,
};
use vstd::prelude::*;
use vstd::utf8::*;

verus! {

/// A device on the bus, as the command line selects it.
#[derive(Clone, Copy, Debug, PartialEq, Eq, Structural)]
pub struct UsbSelector {
    /// The vendor identifier.
    pub vendor: u16,
    /// The product identifier.
    pub product: u16,
    /// The place on the bus.
    pub location: Option<u64>,
}

/// The device that a command line selects.
#[derive(Debug)]
pub struct Selection {
    /// The serial number.
    pub serial: Option<String>,
    /// The number of the transport.
    pub transport_id: Option<u64>,
    /// The device on the bus.
    pub endpoint: Option<UsbSelector>,
}

/// What a selection says.
#[verifier::ext_equal]
pub ghost struct Selected {
    /// The serial number.
    pub serial: Option<Seq<char>>,
    /// The number of the transport.
    pub transport_id: Option<u64>,
    /// The device on the bus.
    pub endpoint: Option<UsbSelector>,
}

impl Selection {
    /// What the selection says.
    pub open spec fn view(&self) -> Selected {
        Selected {
            serial: optional_text(self.serial),
            transport_id: self.transport_id,
            endpoint: self.endpoint,
        }
    }
}

/// What a command line asks for.
#[derive(Debug)]
pub enum Invocation<S, L> {
    /// Print the version.
    Version,
    /// Print a table of the devices on the bus.
    ListUsb,
    /// Run a command.
    Run {
        /// The device.
        selection: S,
        /// The command and its arguments.
        args: L,
    },
}

/// What an invocation says.
pub open spec fn invocation_view(invocation: Invocation<Selection, Vec<String>>) -> Invocation<
    Selected,
    Seq<Seq<char>>,
> {
    match invocation {
        Invocation::Version => Invocation::Version,
        Invocation::ListUsb => Invocation::ListUsb,
        Invocation::Run { selection, args } => Invocation::Run {
            selection: selection@,
            args: texts(args@),
        },
    }
}

/// Reads the selectors from a place on: the place behind them, and what they
/// select.
pub open spec fn select_scan(
    args: Seq<Seq<char>>,
    index: int,
    serial: Option<Seq<char>>,
    id: Option<u64>,
) -> Result<(int, Option<Seq<char>>, Option<u64>), Seq<char>>
    decreases args.len() - index,
{
    if index < args.len() && (args[index] == "-s"@ || args[index] == "-t"@) {
        if index + 1 >= args.len() {
            Err("missing device selector value"@)
        } else {
            let value = args[index + 1];
            if args[index] == "-s"@ && id is None {
                select_scan(args, index + 2, Some(value), id)
            } else if args[index] == "-t"@ && serial is None {
                match unsigned_value(value, 10, u64::MAX as nat) {
                    None => Err(unsigned_complaint(value, 10, u64::MAX as nat)),
                    Some(number) => select_scan(args, index + 2, serial, Some(number as u64)),
                }
            } else {
                Err("only one of -s and -t may be specified"@)
            }
        }
    } else {
        Ok((index, serial, id))
    }
}

/// Whether a text begins with two dashes.
pub open spec fn double_dashed(text: Seq<char>) -> bool {
    text.len() >= 2 && text[0] == '-' && text[1] == '-'
}

/// What the options behind `usb` have said.
#[verifier::ext_equal]
pub ghost struct UsbScan {
    /// The vendor identifier.
    pub vendor: Option<u16>,
    /// The product identifier.
    pub product: Option<u16>,
    /// The place on the bus.
    pub location: Option<u64>,
}

/// Reads the options behind `usb` from a place on.
pub open spec fn usb_scan(args: Seq<Seq<char>>, index: int, scan: UsbScan) -> Result<
    (int, UsbScan),
    Seq<char>,
>
    decreases args.len() - index,
{
    if index + 1 < args.len() && double_dashed(args[index]) {
        let value = args[index + 1];
        if args[index] == "--vendor-id"@ {
            match unsigned_value(value, 16, 65535) {
                None => Err(unsigned_complaint(value, 16, 65535)),
                Some(number) => usb_scan(
                    args,
                    index + 2,
                    UsbScan { vendor: Some(number as u16), ..scan },
                ),
            }
        } else if args[index] == "--product-id"@ {
            match unsigned_value(value, 16, 65535) {
                None => Err(unsigned_complaint(value, 16, 65535)),
                Some(number) => usb_scan(
                    args,
                    index + 2,
                    UsbScan { product: Some(number as u16), ..scan },
                ),
            }
        } else if args[index] == "--location-id"@ {
            match unsigned_value(value, 16, u64::MAX as nat) {
                None => Err(unsigned_complaint(value, 16, u64::MAX as nat)),
                Some(number) => usb_scan(
                    args,
                    index + 2,
                    UsbScan { location: Some(number as u64), ..scan },
                ),
            }
        } else if args[index] == "--private-key"@ {
            usb_scan(args, index + 2, scan)
        } else {
            Err("unsupported USB option"@)
        }
    } else {
        Ok((index, scan))
    }
}

/// What a command line asks for.
pub open spec fn invoked(args: Seq<Seq<char>>, key_is_set: bool) -> Result<
    Invocation<Selected, Seq<Seq<char>>>,
    Seq<char>,
> {
    if args.len() > 0 && args[0] == "version"@ {
        Ok(Invocation::Version)
    } else if !key_is_set {
        Err("MACANDROIDBRIDGE_ADB_KEY is not set"@)
    } else {
        match select_scan(args, 0, None, None) {
            Err(error) => Err(error),
            Ok((index, serial, transport_id)) => if index < args.len() && args[index] == "usb"@ {
                if args.len() == index + 2 && args[index + 1] == "--list"@ {
                    Ok(Invocation::ListUsb)
                } else {
                    match usb_scan(
                        args,
                        index + 1,
                        UsbScan { vendor: None, product: None, location: None },
                    ) {
                        Err(error) => Err(error),
                        Ok((behind, scan)) => match (scan.vendor, scan.product) {
                            (None, _) => Err("missing vendor"@),
                            (_, None) => Err("missing product"@),
                            (Some(vendor), Some(product)) => Ok(
                                Invocation::Run {
                                    selection: Selected {
                                        serial,
                                        transport_id,
                                        endpoint: Some(
                                            UsbSelector {
                                                vendor,
                                                product,
                                                location: scan.location,
                                            },
                                        ),
                                    },
                                    args: args.skip(behind),
                                },
                            ),
                        },
                    }
                }
            } else {
                Ok(
                    Invocation::Run {
                        selection: Selected { serial, transport_id, endpoint: None },
                        args: args.skip(index),
                    },
                )
            },
        }
    }
}

/// Copies the arguments from a place on.
fn copy_from(args: &[String], start: usize) -> (rest: Vec<String>)
    requires
        start <= args@.len(),
    ensures
        texts(rest@) == texts(args@).skip(start as int),
{
    let ghost all = texts(args@);
    let mut rest: Vec<String> = Vec::new();
    let mut i: usize = start;
    while i < args.len()
        invariant
            start <= i <= args@.len(),
            all == texts(args@),
            texts(rest@) =~= all.subrange(start as int, i as int),
        decreases args@.len() - i,
    {
        let ghost before = texts(rest@);
        rest.push(copy_text(&args[i]));
        assert(texts(rest@) =~= before.push(all[i as int]));
        i = i + 1;
    }
    assert(all.subrange(start as int, args@.len() as int) =~= all.skip(start as int));
    rest
}

/// Reads the selectors in front of a command.
#[verifier::loop_isolation(false)]
fn read_selectors(args: &[String]) -> (selected: Result<
    (usize, Option<String>, Option<u64>),
    String,
>)
    ensures
        match select_scan(texts(args@), 0, None, None) {
            Ok((index, serial, id)) => {
                &&& selected is Ok
                &&& selected->Ok_0.0 == index
                &&& index <= args@.len()
                &&& optional_text(selected->Ok_0.1) == serial
                &&& selected->Ok_0.2 == id
            },
            Err(error) => complains(selected, error),
        },
{
    let ghost all = texts(args@);
    let total: usize = args.len();
    let mut serial: Option<String> = None;
    let mut id: Option<u64> = None;
    let mut index: usize = 0;
    while index < total && (same_text(&args[index], "-s") || same_text(&args[index], "-t"))
        invariant
            index <= total,
            total == args@.len(),
            all == texts(args@),
            select_scan(all, 0, None, None) == select_scan(
                all,
                index as int,
                optional_text(serial),
                id,
            ),
        decreases total - index,
    {
        assert(all[index as int] == args@[index as int]@);
        if total - index < 2 {
            return Err(copy_text("missing device selector value"));
        }
        assert(all[index + 1] == args@[index + 1]@);
        if same_text(&args[index], "-s") && id.is_none() {
            serial = Some(copy_text(&args[index + 1]));
        } else if same_text(&args[index], "-t") && serial.is_none() {
            match read_unsigned(&args[index + 1], 10, u64::MAX) {
                Ok(number) => {
                    id = Some(number);
                },
                Err(complaint) => return Err(complaint),
            }
        } else {
            return Err(copy_text("only one of -s and -t may be specified"));
        }
        index = index + 2;
    }
    proof {
        if index < total {
            assert(all[index as int] == args@[index as int]@);
        }
    }
    Ok((index, serial, id))
}

/// Whether a text begins with two dashes.
fn has_two_dashes(text: &str) -> (result: bool)
    ensures
        result == double_dashed(text@),
{
    let chars: Vec<char> = chars_of(text);
    chars.len() >= 2 && chars[0] == '-' && chars[1] == '-'
}

/// Reads the options behind `usb`.
#[verifier::loop_isolation(false)]
fn read_usb_options(args: &[String], from: usize) -> (read: Result<
    (usize, Option<u16>, Option<u16>, Option<u64>),
    String,
>)
    requires
        from <= args@.len(),
    ensures
        match usb_scan(
            texts(args@),
            from as int,
            UsbScan { vendor: None, product: None, location: None },
        ) {
            Ok((index, scan)) => {
                &&& read is Ok
                &&& read->Ok_0.0 == index
                &&& index <= args@.len()
                &&& read->Ok_0.1 == scan.vendor
                &&& read->Ok_0.2 == scan.product
                &&& read->Ok_0.3 == scan.location
            },
            Err(error) => complains(read, error),
        },
{
    let ghost all = texts(args@);
    let ghost start = UsbScan { vendor: None, product: None, location: None };
    let total: usize = args.len();
    let mut vendor: Option<u16> = None;
    let mut product: Option<u16> = None;
    let mut location: Option<u64> = None;
    let mut index: usize = from;
    while total - index >= 2 && has_two_dashes(&args[index])
        invariant
            index <= total,
            total == args@.len(),
            all == texts(args@),
            usb_scan(all, from as int, start) == usb_scan(
                all,
                index as int,
                UsbScan { vendor, product, location },
            ),
        decreases total - index,
    {
        assert(all[index as int] == args@[index as int]@);
        assert(all[index + 1] == args@[index + 1]@);
        let option: &str = args[index].as_str();
        let value: &str = args[index + 1].as_str();
        if same_text(option, "--vendor-id") {
            match read_unsigned(value, 16, 65535) {
                Ok(number) => {
                    vendor = Some(number as u16);
                },
                Err(complaint) => return Err(complaint),
            }
        } else if same_text(option, "--product-id") {
            match read_unsigned(value, 16, 65535) {
                Ok(number) => {
                    product = Some(number as u16);
                },
                Err(complaint) => return Err(complaint),
            }
        } else if same_text(option, "--location-id") {
            match read_unsigned(value, 16, u64::MAX) {
                Ok(number) => {
                    location = Some(number);
                },
                Err(complaint) => return Err(complaint),
            }
        } else if !same_text(option, "--private-key") {
            return Err(copy_text("unsupported USB option"));
        }
        index = index + 2;
    }
    proof {
        if index < total {
            assert(all[index as int] == args@[index as int]@);
        }
    }
    Ok((index, vendor, product, location))
}

/// Reads a command line. All but the version needs a key.
pub fn parse_invocation(args: &[String], key_is_set: bool) -> (invocation: Result<
    Invocation<Selection, Vec<String>>,
    String,
>)
    ensures
        match invoked(texts(args@), key_is_set) {
            Ok(asked) => invocation is Ok && invocation_view(invocation->Ok_0) == asked,
            Err(error) => complains(invocation, error),
        },
{
    let ghost all = texts(args@);
    assert(all.len() == args@.len());
    if args.len() > 0 && same_text(&args[0], "version") {
        return Ok(Invocation::Version);
    }
    if !key_is_set {
        return Err(copy_text("MACANDROIDBRIDGE_ADB_KEY is not set"));
    }
    let (index, serial, transport_id) = match read_selectors(args) {
        Ok(selected) => selected,
        Err(error) => return Err(error),
    };
    if index < args.len() && same_text(&args[index], "usb") {
        if args.len() - index == 2 && same_text(&args[index + 1], "--list") {
            return Ok(Invocation::ListUsb);
        }
        let (behind, vendor, product, location) = match read_usb_options(args, index + 1) {
            Ok(read) => read,
            Err(error) => return Err(error),
        };
        let vendor: u16 = match vendor {
            Some(vendor) => vendor,
            None => return Err(copy_text("missing vendor")),
        };
        let product: u16 = match product {
            Some(product) => product,
            None => return Err(copy_text("missing product")),
        };
        return Ok(
            Invocation::Run {
                selection: Selection {
                    serial,
                    transport_id,
                    endpoint: Some(UsbSelector { vendor, product, location }),
                },
                args: copy_from(args, behind),
            },
        );
    }
    Ok(
        Invocation::Run {
            selection: Selection { serial, transport_id, endpoint: None },
            args: copy_from(args, index),
        },
    )
}

/// A command line never selects a device by its serial number and by its
/// transport at once.
pub proof fn selectors_exclude_each_other(
    args: Seq<Seq<char>>,
    index: int,
    serial: Option<Seq<char>>,
    id: Option<u64>,
)
    requires
        serial is None || id is None,
    ensures
        select_scan(args, index, serial, id) matches Ok((_, named, numbered)) ==> named is None
            || numbered is None,
    decreases args.len() - index,
{
    if index < args.len() && (args[index] == "-s"@ || args[index] == "-t"@) && index + 1
        < args.len() {
        let value = args[index + 1];
        if args[index] == "-s"@ && id is None {
            selectors_exclude_each_other(args, index + 2, Some(value), id);
        } else if args[index] == "-t"@ && serial is None {
            match unsigned_value(value, 10, u64::MAX as nat) {
                None => {},
                Some(number) => {
                    selectors_exclude_each_other(args, index + 2, serial, Some(number as u64));
                },
            }
        }
    }
}

/// The line that tells the version.
pub open spec fn version() -> Seq<char> {
    "Android Debug Bridge compatibility (adb_client 0.1.0)"@
}

/// Writes the line that tells the version.
pub fn version_line() -> (line: String)
    ensures
        line@ == version(),
{
    copy_text("Android Debug Bridge compatibility (adb_client 0.1.0)")
}

/// A command that needs no device.
#[derive(Debug)]
pub enum HostCommand<T> {
    /// Pair with the device at an address, with a code.
    Pair(T, T),
    /// Connect to the device at an address.
    Connect(T),
    /// Disconnect from an address, or from every one.
    Disconnect(Option<T>),
    /// See whether devices can be discovered on the network.
    MdnsCheck,
    /// List the devices that are discovered on the network.
    MdnsServices,
}

/// What a command says.
pub open spec fn host_view(command: Option<HostCommand<String>>) -> Option<
    HostCommand<Seq<char>>,
> {
    match command {
        None => None,
        Some(HostCommand::Pair(address, code)) => Some(HostCommand::Pair(address@, code@)),
        Some(HostCommand::Connect(address)) => Some(HostCommand::Connect(address@)),
        Some(HostCommand::Disconnect(address)) => Some(
            HostCommand::Disconnect(optional_text(address)),
        ),
        Some(HostCommand::MdnsCheck) => Some(HostCommand::MdnsCheck),
        Some(HostCommand::MdnsServices) => Some(HostCommand::MdnsServices),
    }
}

/// The command that arguments name where it needs no device.
pub open spec fn host_asked(args: Seq<Seq<char>>) -> Result<
    Option<HostCommand<Seq<char>>>,
    Seq<char>,
> {
    if args.len() == 0 {
        Ok(None)
    } else if args[0] == "pair"@ {
        if args.len() == 3 {
            Ok(Some(HostCommand::Pair(args[1], args[2])))
        } else {
            Err("usage: adb pair HOST:PORT PAIRING_CODE"@)
        }
    } else if args[0] == "connect"@ {
        if args.len() == 2 {
            Ok(Some(HostCommand::Connect(args[1])))
        } else {
            Err("usage: adb connect HOST:PORT"@)
        }
    } else if args[0] == "disconnect"@ {
        if args.len() == 1 {
            Ok(Some(HostCommand::Disconnect(None)))
        } else if args.len() == 2 {
            Ok(
                Some(
                    HostCommand::Disconnect(
                        if args[1] == "-a"@ {
                            None
                        } else {
                            Some(args[1])
                        },
                    ),
                ),
            )
        } else {
            Err("usage: adb disconnect [HOST:PORT|-a]"@)
        }
    } else if args[0] == "mdns"@ {
        if args.len() == 2 && args[1] == "check"@ {
            Ok(Some(HostCommand::MdnsCheck))
        } else if args.len() == 2 && args[1] == "services"@ {
            Ok(Some(HostCommand::MdnsServices))
        } else {
            Err("usage: adb mdns check|services"@)
        }
    } else {
        Ok(None)
    }
}

/// Reads a command that needs no device.
pub fn parse_host_command(args: &[String]) -> (command: Result<
    Option<HostCommand<String>>,
    String,
>)
    ensures
        match host_asked(texts(args@)) {
            Ok(asked) => command is Ok && host_view(command->Ok_0) == asked,
            Err(error) => complains(command, error),
        },
{
    let ghost all = texts(args@);
    assert(all.len() == args@.len());
    if args.len() == 0 {
        return Ok(None);
    }
    assert(all[0] == args@[0]@);
    let name: &str = args[0].as_str();
    if same_text(name, "pair") {
        if args.len() == 3 {
            return Ok(Some(HostCommand::Pair(copy_text(&args[1]), copy_text(&args[2]))));
        }
        return Err(copy_text("usage: adb pair HOST:PORT PAIRING_CODE"));
    }
    if same_text(name, "connect") {
        if args.len() == 2 {
            return Ok(Some(HostCommand::Connect(copy_text(&args[1]))));
        }
        return Err(copy_text("usage: adb connect HOST:PORT"));
    }
    if same_text(name, "disconnect") {
        if args.len() == 1 {
            return Ok(Some(HostCommand::Disconnect(None)));
        }
        if args.len() == 2 {
            if same_text(&args[1], "-a") {
                return Ok(Some(HostCommand::Disconnect(None)));
            }
            return Ok(Some(HostCommand::Disconnect(Some(copy_text(&args[1])))));
        }
        return Err(copy_text("usage: adb disconnect [HOST:PORT|-a]"));
    }
    if same_text(name, "mdns") {
        if args.len() == 2 && same_text(&args[1], "check") {
            return Ok(Some(HostCommand::MdnsCheck));
        }
        if args.len() == 2 && same_text(&args[1], "services") {
            return Ok(Some(HostCommand::MdnsServices));
        }
        return Err(copy_text("usage: adb mdns check|services"));
    }
    Ok(None)
}

/// The line that tells of a pairing.
pub fn paired_line(address: &str, guid: &str) -> (line: String)
    ensures
        line@ == "Successfully paired to "@ + address@ + " ["@ + guid@ + "]"@,
{
    plus(
        plus(plus(plus(copy_text("Successfully paired to "), address), " ["), guid),
        "]",
    )
}

/// The line that tells of a connection.
pub fn connected_line(address: &str, serial: &str) -> (line: String)
    ensures
        line@ == "connected to "@ + address@ + " ("@ + serial@ + ")"@,
{
    plus(plus(plus(plus(copy_text("connected to "), address), " ("), serial), ")")
}

/// The line that tells of a disconnection.
pub fn disconnected_line(address: &Option<String>) -> (line: String)
    ensures
        line@ == match optional_text(*address) {
            Some(address) => "disconnected "@ + address,
            None => "disconnected everything"@,
        },
{
    match address {
        Some(address) => plus(copy_text("disconnected "), address),
        None => copy_text("disconnected everything"),
    }
}

/// The line that tells of a device that was discovered on the network.
pub fn service_line(name: &str, address: &str, port: u16) -> (line: String)
    ensures
        line@ == name@ + "\\t"@ + address@ + ":"@ + decimal(port as nat),
{
    plus(
        plus(plus(plus(copy_text(name), "\\t"), address), ":"),
        &format_decimal(port as u64),
    )
}

/// The serial number that a device over TCP goes by: the one that it reports,
/// or its address where it reports none.
pub fn reported_serial(output: &[u8], address: &str) -> (serial: Result<String, String>)
    ensures
        if !valid_utf8(output@) {
            complains(serial, utf8_complaint(output@))
        } else {
            let reported = trim(decode_utf8(output@));
            &&& serial is Ok
            &&& serial->Ok_0@ == if reported.len() == 0 {
                address@
            } else {
                reported
            }
        },
{
    match decode(output) {
        Err(complaint) => Err(complaint),
        Ok(text) => {
            let chars: Vec<char> = chars_of(&text);
            let reported: String = string_of(trimmed(&chars));
            if empty_text(&reported) {
                Ok(copy_text(address))
            } else {
                Ok(reported)
            }
        },
    }
}

/// The commands that need no device: each takes what its usage says, and any other number
/// of arguments is refused.
pub proof fn host_commands_are_understood(
    address: Seq<char>,
    code: Seq<char>,
    args: Seq<Seq<char>>,
)
    ensures
        host_asked(seq!["pair"@, address, code]) == Ok::<
            Option<HostCommand<Seq<char>>>,
            Seq<char>,
        >(Some(HostCommand::Pair(address, code))),
        host_asked(seq!["connect"@, address]) == Ok::<Option<HostCommand<Seq<char>>>, Seq<char>>(
            Some(HostCommand::Connect(address)),
        ),
        host_asked(seq!["disconnect"@]) == Ok::<Option<HostCommand<Seq<char>>>, Seq<char>>(
            Some(HostCommand::Disconnect(None)),
        ),
        host_asked(seq!["disconnect"@, "-a"@]) == Ok::<Option<HostCommand<Seq<char>>>, Seq<char>>(
            Some(HostCommand::Disconnect(None)),
        ),
        address != "-a"@ ==> host_asked(seq!["disconnect"@, address]) == Ok::<
            Option<HostCommand<Seq<char>>>,
            Seq<char>,
        >(Some(HostCommand::Disconnect(Some(address)))),
        host_asked(seq!["mdns"@, "check"@]) == Ok::<Option<HostCommand<Seq<char>>>, Seq<char>>(
            Some(HostCommand::MdnsCheck),
        ),
        host_asked(seq!["mdns"@, "services"@]) == Ok::<Option<HostCommand<Seq<char>>>, Seq<char>>(
            Some(HostCommand::MdnsServices),
        ),
        args.len() == 0 || args[0] != "pair"@ && args[0] != "connect"@ && args[0] != "disconnect"@
            && args[0] != "mdns"@ ==> host_asked(args) == Ok::<
            Option<HostCommand<Seq<char>>>,
            Seq<char>,
        >(None),
        args.len() > 0 && args[0] == "pair"@ && args.len() != 3 ==> host_asked(args) is Err,
        args.len() > 0 && args[0] == "connect"@ && args.len() != 2 ==> host_asked(args) is Err,
        args.len() > 0 && args[0] == "disconnect"@ && args.len() > 2 ==> host_asked(args) is Err,
{
    reveal_strlit("pair");
    reveal_strlit("connect");
    reveal_strlit("disconnect");
    reveal_strlit("mdns");
    reveal_strlit("check");
    reveal_strlit("services");
    assert("pair"@[0] == 'p' && "mdns"@[0] == 'm');
    assert("pair"@.len() == 4 && "mdns"@.len() == 4);
    assert("connect"@.len() == 7 && "disconnect"@.len() == 10);
    assert("check"@.len() == 5 && "services"@.len() == 8);
    assert(seq!["mdns"@, "services"@][1] == "services"@);
    assert(seq!["disconnect"@, address][1] == address);
    assert(seq!["disconnect"@, "-a"@][1] == "-a"@);
}

/// Whether arguments begin with a command: with no selector of a device, nor the word that
/// describes one on the bus.
pub open spec fn begins_with_a_command(args: Seq<Seq<char>>) -> bool {
    args.len() > 0 && args[0] != "-s"@ && args[0] != "-t"@ && args[0] != "usb"@ && args[0]
        != "version"@
}

/// A device is selected by its serial number, by the number of its transport, or by its
/// description, or not at all; the command and its arguments follow, unchanged. Only one
/// of the first two can be given.
pub proof fn devices_are_selected_in_front_of_the_command(
    command: Seq<Seq<char>>,
    serial: Seq<char>,
    id: u64,
)
    requires
        begins_with_a_command(command),
    ensures
        invoked(command, true) == Ok::<Invocation<Selected, Seq<Seq<char>>>, Seq<char>>(
            Invocation::Run {
                selection: Selected { serial: None, transport_id: None, endpoint: None },
                args: command,
            },
        ),
        invoked(seq!["-s"@, serial] + command, true) == Ok::<
            Invocation<Selected, Seq<Seq<char>>>,
            Seq<char>,
        >(
            Invocation::Run {
                selection: Selected { serial: Some(serial), transport_id: None, endpoint: None },
                args: command,
            },
        ),
        invoked(seq!["-t"@, decimal(id as nat)] + command, true) == Ok::<
            Invocation<Selected, Seq<Seq<char>>>,
            Seq<char>,
        >(
            Invocation::Run {
                selection: Selected { serial: None, transport_id: Some(id), endpoint: None },
                args: command,
            },
        ),
        invoked(seq!["-s"@, serial, "-t"@, decimal(id as nat)] + command, true) is Err,
        invoked(seq!["-t"@, decimal(id as nat), "-s"@, serial] + command, true) is Err,
        invoked(command, false) is Err,
        forall|set: bool| invoked(seq!["version"@], set) == Ok::<
            Invocation<Selected, Seq<Seq<char>>>,
            Seq<char>,
        >(Invocation::Version),
{
    reveal_strlit("-s");
    reveal_strlit("-t");
    reveal_strlit("usb");
    reveal_strlit("version");
    assert("-s"@.len() == 2 && "-t"@.len() == 2 && "version"@.len() == 7);
    assert("-s"@[1] == 's' && "-t"@[1] == 't');
    reveal_with_fuel(select_scan, 4);
    let number = decimal(id as nat);
    decimals_are_read_back(id as nat, u64::MAX as nat);
    let named = seq!["-s"@, serial] + command;
    let numbered = seq!["-t"@, number] + command;
    let both = seq!["-s"@, serial, "-t"@, number] + command;
    let reversed = seq!["-t"@, number, "-s"@, serial] + command;
    assert(command.skip(0) =~= command);
    assert(named.skip(2) =~= command);
    assert(numbered.skip(2) =~= command);
    assert(named[0] == "-s"@ && named[1] == serial && named[2] == command[0]);
    assert(numbered[0] == "-t"@ && numbered[1] == number && numbered[2] == command[0]);
    assert(both[0] == "-s"@ && both[1] == serial && both[2] == "-t"@ && both[3] == number);
    assert(reversed[0] == "-t"@ && reversed[1] == number && reversed[2] == "-s"@);
    assert(seq!["version"@][0] == "version"@);
}

/// A device on the bus is described by its identifiers in hexadecimal digits, and by its
/// place where that is given. Both identifiers must be there.
pub proof fn devices_on_the_bus_are_described(
    vendor: u16,
    product: u16,
    location: u64,
    command: Seq<Seq<char>>,
)
    requires
        begins_with_a_command(command),
        !double_dashed(command[0]),
    ensures
        ({
            let plain = seq![
                "usb"@,
                "--vendor-id"@,
                hex(vendor as nat, 4),
                "--product-id"@,
                hex(product as nat, 4),
            ];
            let placed = plain + seq!["--location-id"@, hex(location as nat, 16)];
            &&& invoked(plain + command, true) == Ok::<
                Invocation<Selected, Seq<Seq<char>>>,
                Seq<char>,
            >(
                Invocation::Run {
                    selection: Selected {
                        serial: None,
                        transport_id: None,
                        endpoint: Some(UsbSelector { vendor, product, location: None }),
                    },
                    args: command,
                },
            )
            &&& invoked(placed + command, true) == Ok::<
                Invocation<Selected, Seq<Seq<char>>>,
                Seq<char>,
            >(
                Invocation::Run {
                    selection: Selected {
                        serial: None,
                        transport_id: None,
                        endpoint: Some(UsbSelector { vendor, product, location: Some(location) }),
                    },
                    args: command,
                },
            )
            &&& invoked(seq!["usb"@, "--list"@], true) == Ok::<
                Invocation<Selected, Seq<Seq<char>>>,
                Seq<char>,
            >(Invocation::ListUsb)
            &&& invoked(seq!["usb"@] + command, true) is Err
        }),
{
    reveal_strlit("-s");
    reveal_strlit("-t");
    reveal_strlit("usb");
    reveal_strlit("version");
    reveal_strlit("--vendor-id");
    reveal_strlit("--product-id");
    reveal_strlit("--location-id");
    reveal_strlit("--private-key");
    reveal_strlit("--list");
    assert("usb"@.len() == 3 && "-s"@.len() == 2 && "-t"@.len() == 2 && "version"@.len() == 7);
    assert("--vendor-id"@.len() == 11 && "--product-id"@.len() == 12);
    assert("--location-id"@.len() == 13 && "--private-key"@.len() == 13 && "--list"@.len() == 6);
    assert("--location-id"@[2] == 'l' && "--private-key"@[2] == 'p');
    let first = hex(vendor as nat, 4);
    let second = hex(product as nat, 4);
    let third = hex(location as nat, 16);
    lemma_hex_value(vendor as nat, 4, 65535);
    lemma_hex_value(product as nat, 4, 65535);
    lemma_hex_value(location as nat, 16, u64::MAX as nat);
    let plain = seq!["usb"@, "--vendor-id"@, first, "--product-id"@, second];
    let placed = plain + seq!["--location-id"@, third];
    let one = plain + command;
    let two = placed + command;
    assert(one[0] == "usb"@ && one[1] == "--vendor-id"@ && one[2] == first && one[3]
        == "--product-id"@ && one[4] == second && one[5] == command[0]);
    assert(two[0] == "usb"@ && two[1] == "--vendor-id"@ && two[2] == first && two[3]
        == "--product-id"@ && two[4] == second && two[5] == "--location-id"@ && two[6] == third
        && two[7] == command[0]);
    assert(one.skip(5) =~= command);
    assert(two.skip(7) =~= command);
    let none = UsbScan { vendor: None, product: None, location: None };
    let half = UsbScan { vendor: Some(vendor), ..none };
    let full = UsbScan { product: Some(product), ..half };
    let all = UsbScan { location: Some(location), ..full };
    assert(usb_scan(one, 5, full) == Ok::<(int, UsbScan), Seq<char>>((5, full)));
    assert(usb_scan(one, 3, half) == usb_scan(one, 5, full));
    assert(usb_scan(one, 1, none) == usb_scan(one, 3, half));
    assert(usb_scan(two, 7, all) == Ok::<(int, UsbScan), Seq<char>>((7, all)));
    assert(usb_scan(two, 5, full) == usb_scan(two, 7, all));
    assert(usb_scan(two, 3, half) == usb_scan(two, 5, full));
    assert(usb_scan(two, 1, none) == usb_scan(two, 3, half));
    let list = seq!["usb"@, "--list"@];
    assert(list[0] == "usb"@ && list[1] == "--list"@);
    let bare = seq!["usb"@] + command;
    assert(bare[0] == "usb"@ && bare[1] == command[0]);
    assert("--list"@[0] == '-' && "--list"@[1] == '-');
    assert(usb_scan(bare, 1, none) == Ok::<(int, UsbScan), Seq<char>>((1, none)));
}

/// A number in hexadecimal digits is read as what it is.
proof fn lemma_hex_value(value: nat, width: nat, max: nat)
    requires
        value <= max,
        width > 0,
    ensures
        unsigned_value(hex(value, width), 16, max) == Some(value),
{
    numbers_are_read_back(value, 16, width);
    let text = hex(value, width);
    assert('0' <= text[0] <= '9' || 'a' <= text[0] <= 'f');
    assert(unsigned_digits(text) == text);
}

/// A selection needs a value, and there is one of a kind.
pub proof fn selections_are_of_one_kind(
    rest: Seq<Seq<char>>,
    word: Seq<char>,
    value: Seq<char>,
    id: u64,
)
    requires
        word == "-s"@ || word == "-t"@,
    ensures
        invoked(seq![word], true) == Err::<Invocation<Selected, Seq<Seq<char>>>, Seq<char>>(
            "missing device selector value"@,
        ),
        invoked(seq!["-s"@, value, "-t"@, decimal(id as nat)] + rest, true) == Err::<
            Invocation<Selected, Seq<Seq<char>>>,
            Seq<char>,
        >("only one of -s and -t may be specified"@),
        invoked(seq!["-t"@, decimal(id as nat), "-s"@, value] + rest, true) == Err::<
            Invocation<Selected, Seq<Seq<char>>>,
            Seq<char>,
        >("only one of -s and -t may be specified"@),
{
    reveal_strlit("-s");
    reveal_strlit("-t");
    reveal_strlit("version");
    assert("-s"@.len() == 2);
    assert("-t"@.len() == 2);
    assert("version"@.len() == 7);
    assert("-s"@[1] == 's');
    assert("-t"@[1] == 't');
    decimals_are_read_back(id as nat, u64::MAX as nat);
    assert(seq![word][0] == word);
    let first = seq!["-s"@, value, "-t"@, decimal(id as nat)] + rest;
    let second = seq!["-t"@, decimal(id as nat), "-s"@, value] + rest;
    assert(first[0] == "-s"@ && first[1] == value && first[2] == "-t"@);
    assert(second[0] == "-t"@ && second[1] == decimal(id as nat) && second[2] == "-s"@);
    assert(select_scan(first, 2, Some(value), None) is Err);
    assert(select_scan(second, 2, None, Some(id)) is Err);
    assert(select_scan(first, 0, None, None) == select_scan(first, 2, Some(value), None));
    assert(select_scan(second, 0, None, None) == select_scan(second, 2, None, Some(id)));
}

/// Nothing but the version is told without a key.
pub proof fn keys_are_needed(args: Seq<Seq<char>>)
    ensures
        args.len() > 0 && args[0] == "version"@ ==> invoked(args, false) == Ok::<
            Invocation<Selected, Seq<Seq<char>>>,
            Seq<char>,
        >(Invocation::Version),
        args.len() == 0 || args[0] != "version"@ ==> invoked(args, false) == Err::<
            Invocation<Selected, Seq<Seq<char>>>,
            Seq<char>,
        >("MACANDROIDBRIDGE_ADB_KEY is not set"@),
        version() == "Android Debug Bridge compatibility (adb_client 0.1.0)"@,
{
}

/// A host command with too few or too many words is answered by how to write it.
pub proof fn host_commands_are_answered_by_their_usage(args: Seq<Seq<char>>)
    requires
        args.len() > 0,
    ensures
        args[0] == "pair"@ && args.len() != 3 ==> host_asked(args) == Err::<
            Option<HostCommand<Seq<char>>>,
            Seq<char>,
        >("usage: adb pair HOST:PORT PAIRING_CODE"@),
        args[0] == "connect"@ && args.len() != 2 ==> host_asked(args) == Err::<
            Option<HostCommand<Seq<char>>>,
            Seq<char>,
        >("usage: adb connect HOST:PORT"@),
        args[0] == "disconnect"@ && args.len() > 2 ==> host_asked(args) == Err::<
            Option<HostCommand<Seq<char>>>,
            Seq<char>,
        >("usage: adb disconnect [HOST:PORT|-a]"@),
        args[0] == "mdns"@ && args.len() != 2 ==> host_asked(args) == Err::<
            Option<HostCommand<Seq<char>>>,
            Seq<char>,
        >("usage: adb mdns check|services"@),
{
    reveal_strlit("pair");
    reveal_strlit("mdns");
    reveal_strlit("connect");
    reveal_strlit("disconnect");
    assert("pair"@.len() == 4);
    assert("mdns"@.len() == 4);
    assert("connect"@.len() == 7);
    assert("disconnect"@.len() == 10);
    assert("pair"@[0] == 'p');
    assert("mdns"@[0] == 'm');
}

/// What begins with two dashes in front of a value is an option of the bus: one that is
/// not known is refused, and a device must be given both of its numbers.
pub proof fn options_of_the_bus(option: Seq<char>, value: Seq<char>, rest: Seq<Seq<char>>)
    requires
        option.len() >= 2,
        option[0] == '-',
        option[1] == '-',
        option != "--vendor-id"@,
        option != "--product-id"@,
        option != "--location-id"@,
        option != "--private-key"@,
    ensures
        invoked(seq!["usb"@, option, value] + rest, true) == Err::<
            Invocation<Selected, Seq<Seq<char>>>,
            Seq<char>,
        >("unsupported USB option"@),
        invoked(seq!["usb"@], true) == Err::<Invocation<Selected, Seq<Seq<char>>>, Seq<char>>(
            "missing vendor"@,
        ),
{
    reveal_strlit("usb");
    reveal_strlit("-s");
    reveal_strlit("-t");
    reveal_strlit("version");
    reveal_strlit("--list");
    assert("usb"@.len() == 3);
    assert("-s"@.len() == 2);
    assert("-t"@.len() == 2);
    assert("version"@.len() == 7);
    assert("--list"@.len() == 6);
    assert("-s"@[1] == 's');
    assert("-t"@[1] == 't');
    let args = seq!["usb"@, option, value] + rest;
    let none = UsbScan { vendor: None, product: None, location: None };
    assert(args[0] == "usb"@ && args[1] == option && args[2] == value);
    assert(select_scan(args, 0, None, None) == Ok::<
        (int, Option<Seq<char>>, Option<u64>),
        Seq<char>,
    >((0, None, None)));
    assert(usb_scan(args, 1, none) is Err);
    let alone = seq!["usb"@];
    assert(alone[0] == "usb"@);
    assert(usb_scan(alone, 1, none) == Ok::<(int, UsbScan), Seq<char>>((1, none)));
}

/// A device of the bus whose own number is missing is not sought.
pub proof fn products_must_be_named(vendor: u16)
    ensures
        invoked(seq!["usb"@, "--vendor-id"@, hex(vendor as nat, 4)], true) == Err::<
            Invocation<Selected, Seq<Seq<char>>>,
            Seq<char>,
        >("missing product"@),
{
    reveal_strlit("usb");
    reveal_strlit("-s");
    reveal_strlit("-t");
    reveal_strlit("version");
    reveal_strlit("--list");
    reveal_strlit("--vendor-id");
    assert("usb"@.len() == 3);
    assert("-s"@.len() == 2);
    assert("-t"@.len() == 2);
    assert("version"@.len() == 7);
    assert("--list"@.len() == 6);
    assert("--vendor-id"@.len() == 11);
    assert("-s"@[1] == 's');
    assert("-t"@[1] == 't');
    lemma_hex_value(vendor as nat, 4, 65535);
    let text = hex(vendor as nat, 4);
    let args = seq!["usb"@, "--vendor-id"@, text];
    let none = UsbScan { vendor: None, product: None, location: None };
    let half = UsbScan { vendor: Some(vendor), ..none };
    assert(args[0] == "usb"@ && args[1] == "--vendor-id"@ && args[2] == text);
    assert("--vendor-id"@[0] == '-' && "--vendor-id"@[1] == '-');
    assert(usb_scan(args, 3, half) == Ok::<(int, UsbScan), Seq<char>>((3, half)));
    assert(usb_scan(args, 1, none) == usb_scan(args, 3, half));
}

} // verus!
