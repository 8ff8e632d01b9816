//! Devices on the USB bus.

use crate::bytes::{copy_bytes, le32_value, push_bytes};
use crate::command::{destination, ADBLocalCommand};
use crate::dispatched::{
    removal_begins, removal_told, removal_view, reverse_begins, service_opened,
    DispatchedADBMessageDevice, RemovalStep, RouteRemoval, Shared,
};
use crate::dispatcher::{has_room, route_entries};
use crate::error::{failed, AdbResult, RustADBError};
use crate::forward::{forward_port, pair_texts};
use crate::message::{
    bare, byte_sum, command_code, header_bytes, header_read, headers_round_trip, packet,
    ADBTransportMessage, ADBTransportMessageHeader, MessageCommand, Packet,
};
use crate::message_device::{
    connect_event_view, connect_fits, connect_next, connect_view, opens, session_opened,
    ADBMessageDevice, ADBSession, ConnectAction, ConnectEvent, Connection,
};
use crate::operation::{Operation, Task};
use crate::reverse_relay::{relay_port, ReverseRelay};
use crate::table::{distinct, map_of};
use crate::text::{copy_text, format_number, hex, optional_text, plus};
use vstd::prelude::*;

verus! {

/// An interface of a device on the bus.
#[derive(Clone, Copy, Debug, PartialEq, Eq, Structural)]
pub struct UsbInterface {
    /// The class.
    pub class: u8,
    /// The subclass.
    pub subclass: u8,
    /// The protocol.
    pub protocol: u8,
}

/// A device on the bus, as it is enumerated.
#[derive(Debug)]
pub struct UsbDevice {
    /// The vendor identifier.
    pub vendor_id: u16,
    /// The product identifier.
    pub product_id: u16,
    /// The serial number.
    pub serial: Option<String>,
    /// The name of the manufacturer.
    pub manufacturer: Option<String>,
    /// The name of the product.
    pub product: Option<String>,
    /// The place on the bus.
    pub location_id: Option<u64>,
    /// The interfaces.
    pub interfaces: Vec<UsbInterface>,
}

/// Whether an interface is the one of the bridge.
pub open spec fn is_bridge(interface: UsbInterface) -> bool {
    interface.class == 0xff && interface.subclass == 0x42 && interface.protocol == 0x01
}

/// Whether some interface is the one of the bridge.
pub open spec fn has_bridge(interfaces: Seq<UsbInterface>) -> bool {
    exists|i: int| 0 <= i < interfaces.len() && is_bridge(#[trigger] interfaces[i])
}

/// Whether a device has the interface of the bridge.
pub fn is_adb_device(device: &UsbDevice) -> (result: bool)
    ensures
        result == has_bridge(device.interfaces@),
{
    let mut i: usize = 0;
    while i < device.interfaces.len()
        invariant
            i <= device.interfaces@.len(),
            forall|j: int| 0 <= j < i ==> !is_bridge(#[trigger] device.interfaces@[j]),
        decreases device.interfaces@.len() - i,
    {
        let interface = device.interfaces[i];
        if interface.class == 0xff && interface.subclass == 0x42 && interface.protocol == 0x01 {
            assert(is_bridge(device.interfaces@[i as int]));
            return true;
        }
        i = i + 1;
    }
    false
}

/// An Android device on the bus.
#[derive(Debug)]
pub struct ADBDeviceInfo {
    /// The vendor identifier.
    pub vendor_id: u16,
    /// The serial number, by which a device is selected.
    pub serial: Option<String>,
    /// The product identifier.
    pub product_id: u16,
    /// The place on the bus.
    pub location_id: Option<u64>,
    /// The manufacturer and product, for people.
    pub device_description: String,
}

/// What is known of an Android device.
#[verifier::ext_equal]
pub ghost struct DeviceFacts {
    /// The vendor identifier.
    pub vendor_id: u16,
    /// The serial number.
    pub serial: Option<Seq<char>>,
    /// The product identifier.
    pub product_id: u16,
    /// The place on the bus.
    pub location_id: Option<u64>,
    /// The manufacturer and product.
    pub device_description: Seq<char>,
}

impl ADBDeviceInfo {
    /// What is known of the device.
    pub open spec fn view(&self) -> DeviceFacts {
        DeviceFacts {
            vendor_id: self.vendor_id,
            serial: optional_text(self.serial),
            product_id: self.product_id,
            location_id: self.location_id,
            device_description: self.device_description@,
        }
    }

    /// Copies what is known of a device.
    pub fn copy(&self) -> (info: ADBDeviceInfo)
        ensures
            info@ == self@,
    {
        ADBDeviceInfo {
            vendor_id: self.vendor_id,
            serial: copy_optional(&self.serial),
            product_id: self.product_id,
            location_id: self.location_id,
            device_description: copy_text(&self.device_description),
        }
    }
}

/// Copies an optional text.
fn copy_optional(text: &Option<String>) -> (copy: Option<String>)
    ensures
        optional_text(copy) == optional_text(*text),
{
    match text {
        Some(text) => Some(copy_text(text)),
        None => None,
    }
}

/// The description of a device: the names that are known, with a space between.
pub open spec fn description(manufacturer: Option<Seq<char>>, product: Option<Seq<char>>) -> Seq<
    char,
> {
    match (manufacturer, product) {
        (Some(manufacturer), Some(product)) => manufacturer + " "@ + product,
        (Some(name), None) => name,
        (None, Some(name)) => name,
        (None, None) => seq![],
    }
}

/// What is known of a device on the bus.
pub open spec fn facts(device: UsbDevice) -> DeviceFacts {
    DeviceFacts {
        vendor_id: device.vendor_id,
        serial: optional_text(device.serial),
        product_id: device.product_id,
        location_id: device.location_id,
        device_description: description(
            optional_text(device.manufacturer),
            optional_text(device.product),
        ),
    }
}

/// What is known of devices.
pub open spec fn infos(list: Seq<ADBDeviceInfo>) -> Seq<DeviceFacts> {
    list.map_values(|info: ADBDeviceInfo| info@)
}

/// The Android devices among the first devices on the bus, in order.
pub open spec fn android_devices(devices: Seq<UsbDevice>, n: int) -> Seq<DeviceFacts>
    decreases n,
{
    if n <= 0 {
        seq![]
    } else if has_bridge(devices[n - 1].interfaces@) {
        android_devices(devices, n - 1).push(facts(devices[n - 1]))
    } else {
        android_devices(devices, n - 1)
    }
}

/// Describes a device on the bus.
fn describe(device: &UsbDevice) -> (info: ADBDeviceInfo)
    ensures
        info@ == facts(*device),
{
    let device_description: String = match (&device.manufacturer, &device.product) {
        (Some(manufacturer), Some(product)) => plus(plus(copy_text(manufacturer), " "), product),
        (Some(name), None) => copy_text(name),
        (None, Some(name)) => copy_text(name),
        (None, None) => {
            let nothing = String::new();
            assert(nothing@ =~= seq![]);
            nothing
        },
    };
    ADBDeviceInfo {
        vendor_id: device.vendor_id,
        serial: copy_optional(&device.serial),
        product_id: device.product_id,
        location_id: device.location_id,
        device_description,
    }
}

/// Lists the Android devices on the bus.
pub fn find_all_connected_adb_devices(devices: &[UsbDevice]) -> (found: Vec<ADBDeviceInfo>)
    ensures
        infos(found@) == android_devices(devices@, devices@.len() as int),
{
    let mut found: Vec<ADBDeviceInfo> = Vec::new();
    let mut i: usize = 0;
    assert(infos(found@) =~= seq![]);
    while i < devices.len()
        invariant
            i <= devices@.len(),
            infos(found@) == android_devices(devices@, i as int),
        decreases devices@.len() - i,
    {
        if is_adb_device(&devices[i]) {
            let ghost before = infos(found@);
            let info: ADBDeviceInfo = describe(&devices[i]);
            let ghost known = info@;
            found.push(info);
            assert(infos(found@) =~= before.push(known));
        }
        i = i + 1;
    }
    found
}

/// The identifiers of a device, for people.
pub open spec fn identifiers(info: DeviceFacts) -> Seq<char> {
    hex(info.vendor_id as nat, 4) + ":"@ + hex(info.product_id as nat, 4)
}

/// Writes the identifiers of a device.
fn write_identifiers(info: &ADBDeviceInfo) -> (text: String)
    ensures
        text@ == identifiers(info@),
{
    plus(
        plus(format_number(info.vendor_id as u64, 16, 4), ":"),
        &format_number(info.product_id as u64, 16, 4),
    )
}

/// Gives the one Android device that was found, if one was; more than one is an
/// error.
pub fn get_single_connected_adb_device(found: &[ADBDeviceInfo]) -> (device: AdbResult<
    Option<ADBDeviceInfo>,
>)
    ensures
        if found@.len() == 0 {
            device is Ok && device->Ok_0 is None
        } else if found@.len() == 1 {
            device is Ok && device->Ok_0 is Some && device->Ok_0->0@ == found@[0]@
        } else {
            device is Err && device->Err_0@ == RustADBError::DeviceNotFound(
                "Found two Android devices "@ + identifiers(found@[0]@) + " and "@ + identifiers(
                    found@[1]@,
                ),
            )
        },
{
    if found.len() == 0 {
        return Ok(None);
    }
    if found.len() == 1 {
        return Ok(Some(found[0].copy()));
    }
    Err(
        RustADBError::DeviceNotFound(
            plus(
                plus(
                    plus(
                        copy_text("Found two Android devices "),
                        &write_identifiers(&found[0]),
                    ),
                    " and ",
                ),
                &write_identifiers(&found[1]),
            ),
        ),
    )
}

/// Whether a device on the bus is the one that is looked for.
pub open spec fn is_sought(device: UsbDevice, vendor_id: u16, product_id: u16) -> bool {
    device.vendor_id == vendor_id && device.product_id == product_id && has_bridge(
        device.interfaces@,
    )
}

/// Whether a device is sought at a location of the bus.
pub open spec fn is_sought_at(
    device: UsbDevice,
    vendor_id: u16,
    product_id: u16,
    location: u64,
) -> bool {
    is_sought(device, vendor_id, product_id) && location == match device.location_id {
        Some(place) => place,
        None => 0,
    }
}

/// A packet transport over USB.
#[derive(Debug)]
pub struct USBTransport {
    vendor_id: u16,
    product_id: u16,
    connected: bool,
}

impl USBTransport {
    /// The vendor identifier.
    pub closed spec fn vendor(&self) -> u16 {
        self.vendor_id
    }

    /// The product identifier.
    pub closed spec fn product(&self) -> u16 {
        self.product_id
    }

    /// Whether the interface is open.
    pub closed spec fn connected(&self) -> bool {
        self.connected
    }

    /// A transport to the device with these identifiers among those on the bus.
    pub fn new(devices: &[UsbDevice], vendor_id: u16, product_id: u16) -> (transport: AdbResult<
        USBTransport,
    >)
        ensures
            if exists|i: int|
                0 <= i < devices@.len() && is_sought(
                    #[trigger] devices@[i],
                    vendor_id,
                    product_id,
                ) {
                &&& transport is Ok
                &&& transport->Ok_0.vendor() == vendor_id
                &&& transport->Ok_0.product() == product_id
                &&& !transport->Ok_0.connected()
            } else {
                transport is Err && transport->Err_0@ == RustADBError::<
                    Seq<char>,
                >::USBDeviceNotFound(vendor_id, product_id)
            },
    {
        let mut i: usize = 0;
        while i < devices.len()
            invariant
                i <= devices@.len(),
                forall|j: int|
                    0 <= j < i ==> !is_sought(#[trigger] devices@[j], vendor_id, product_id),
            decreases devices@.len() - i,
        {
            if devices[i].vendor_id == vendor_id && devices[i].product_id == product_id
                && is_adb_device(&devices[i]) {
                assert(is_sought(devices@[i as int], vendor_id, product_id));
                return Self::new_from_device(&devices[i]);
            }
            i = i + 1;
        }
        Err(RustADBError::USBDeviceNotFound(vendor_id, product_id))
    }

    /// A transport to a device on the bus.
    pub fn new_from_device(device: &UsbDevice) -> (transport: AdbResult<USBTransport>)
        ensures
            if has_bridge(device.interfaces@) {
                &&& transport is Ok
                &&& transport->Ok_0.vendor() == device.vendor_id
                &&& transport->Ok_0.product() == device.product_id
                &&& !transport->Ok_0.connected()
            } else {
                transport is Err && transport->Err_0@ == RustADBError::<
                    Seq<char>,
                >::USBNoDescriptorFound
            },
    {
        if !is_adb_device(device) {
            return Err(RustADBError::USBNoDescriptorFound);
        }
        Ok(
            USBTransport {
                vendor_id: device.vendor_id,
                product_id: device.product_id,
                connected: false,
            },
        )
    }

    /// The vendor identifier.
    pub fn vendor_id(&self) -> (id: u16)
        ensures
            id == self.vendor(),
    {
        self.vendor_id
    }

    /// The product identifier.
    pub fn product_id(&self) -> (id: u16)
        ensures
            id == self.product(),
    {
        self.product_id
    }

    /// Whether the interface is open.
    pub fn is_connected(&self) -> (connected: bool)
        ensures
            connected == self.connected(),
    {
        self.connected
    }

    /// Takes note that the interface was opened.
    pub fn opened(&mut self)
        ensures
            final(self).connected(),
            final(self).vendor() == old(self).vendor(),
            final(self).product() == old(self).product(),
    {
        self.connected = true;
    }

    /// Closes the transport: the packet that tells the device so, where the
    /// interface is open.
    pub fn disconnect(&mut self) -> (message: Option<ADBTransportMessage>)
        ensures
            !final(self).connected(),
            final(self).vendor() == old(self).vendor(),
            final(self).product() == old(self).product(),
            if old(self).connected() {
                &&& message is Some
                &&& message->0@ == bare(
                    MessageCommand::Clse,
                    0,
                    0,
                )
            } else {
                message is None
            },
    {
        let was_connected = self.connected;
        self.connected = false;
        if was_connected {
            Some(ADBTransportMessage::bare(MessageCommand::Clse, 0, 0))
        } else {
            None
        }
    }

    /// The transfers that write a packet: one of its header, and one of its
    /// payload where it has any.
    pub fn write_message(&self, message: ADBTransportMessage) -> (transfers: AdbResult<
        Vec<Vec<u8>>,
    >)
        ensures
            if !self.connected() {
                &&& transfers is Err
                &&& transfers->Err_0@ == RustADBError::NotConnected(
                    "ADB USB interface is not open"@,
                )
            } else if message.payload@.len() == 0 {
                &&& transfers is Ok
                &&& transfers->Ok_0@.len() == 1
                &&& transfers->Ok_0@[0]@ == header_bytes(message.header)
            } else {
                &&& transfers is Ok
                &&& transfers->Ok_0@.len() == 2
                &&& transfers->Ok_0@[0]@ == header_bytes(message.header)
                &&& transfers->Ok_0@[1]@ == message.payload@
            },
    {
        if !self.connected {
            return Err(RustADBError::NotConnected(copy_text("ADB USB interface is not open")));
        }
        let mut transfers: Vec<Vec<u8>> = Vec::new();
        transfers.push(message.header.as_bytes());
        if message.payload.len() > 0 {
            transfers.push(message.payload);
        }
        Ok(transfers)
    }

    /// The timeout of a transfer in milliseconds; zero waits for ever.
    pub fn timeout_ms(milliseconds: Option<u64>) -> (timeout: u32)
        ensures
            timeout == match milliseconds {
                None => 0,
                Some(value) => if value > u32::MAX {
                    u32::MAX as u64
                } else {
                    value
                },
            },
    {
        match milliseconds {
            None => 0,
            Some(value) => if value > u32::MAX as u64 {
                u32::MAX
            } else {
                value as u32
            },
        }
    }

    /// The error for a status of the system that is not success.
    pub fn iokit_error(operation: &str, status: u32) -> (error: RustADBError<String>)
        ensures
            error@ == status_error(operation@, status),
    {
        if status == 0xe000_02d6 || status == 0xe000_4051 {
            return RustADBError::TimedOut(
                plus(plus(copy_text("macOS IOKit USB "), operation), " timed out"),
            );
        }
        RustADBError::ADBRequestFailed(
            plus(
                plus(
                    plus(
                        plus(copy_text("macOS IOKit USB "), operation),
                        " failed (0x",
                    ),
                    &format_number(status as u64, 16, 8),
                ),
                ")",
            ),
        )
    }
}

/// The error for a status of the system: two of them say that the time ran out.
pub open spec fn status_error(operation: Seq<char>, status: u32) -> RustADBError<Seq<char>> {
    if status == 0xe000_02d6 || status == 0xe000_4051 {
        RustADBError::TimedOut("macOS IOKit USB "@ + operation + " timed out"@)
    } else {
        RustADBError::ADBRequestFailed(
            "macOS IOKit USB "@ + operation + " failed (0x"@ + hex(status as nat, 8) + ")"@,
        )
    }
}

/// Reads packets off the bus, however the bytes arrive.
#[derive(Debug)]
pub struct PacketReader {
    header: Option<ADBTransportMessageHeader>,
    bytes: Vec<u8>,
}

/// What was read of a packet.
#[verifier::ext_equal]
pub ghost struct PartialPacket {
    /// The header, once it was read.
    pub header: Option<ADBTransportMessageHeader>,
    /// The bytes of the header or, behind it, of the payload.
    pub bytes: Seq<u8>,
}

/// Nothing was read.
pub open spec fn unread() -> PartialPacket {
    PartialPacket { header: None, bytes: seq![] }
}

/// How many bytes make up the part that is read.
pub open spec fn part_length(read: PartialPacket) -> nat {
    match read.header {
        None => 24,
        Some(header) => header.data_length as nat,
    }
}

/// The failure of a read: one inside the payload is never taken for an idle bus.
pub open spec fn read_failure(
    read: PartialPacket,
    error: RustADBError<Seq<char>>,
    text: Seq<char>,
) -> RustADBError<Seq<char>> {
    if read.header is None {
        error
    } else {
        RustADBError::ADBRequestFailed("incomplete USB packet: "@ + text)
    }
}

/// A packet whose header and payload were read.
pub open spec fn joined(header: ADBTransportMessageHeader, payload: Seq<u8>) -> Result<
    Packet,
    RustADBError<Seq<char>>,
> {
    if header.magic == command_code(header.command) ^ 0xffff_ffffu32 && header.data_crc32
        == byte_sum(payload) % 0x1_0000_0000 {
        Ok(packet(header.command, header.arg0, header.arg1, payload))
    } else {
        Err(
            RustADBError::InvalidIntegrity(
                (byte_sum(payload) % 0x1_0000_0000) as u32,
                header.data_crc32,
            ),
        )
    }
}

/// What a read makes of a packet: what is read then, and the packet once it is
/// whole.
pub open spec fn read_next(read: PartialPacket, more: Seq<u8>) -> (
    PartialPacket,
    Result<Option<Packet>, RustADBError<Seq<char>>>,
) {
    let bytes = read.bytes + more;
    if more.len() == 0 {
        let text = "ADB USB interface returned no data"@;
        (unread(), Err(read_failure(read, RustADBError::UnexpectedEof(text), text)))
    } else if bytes.len() < part_length(read) {
        (PartialPacket { header: read.header, bytes }, Ok(None))
    } else {
        match read.header {
            Some(header) => (
                unread(),
                match joined(header, bytes) {
                    Ok(message) => Ok(Some(message)),
                    Err(error) => Err(error),
                },
            ),
            None => match header_read(bytes) {
                None => (unread(), Err(RustADBError::ADBRequestFailed("unknown ADB command"@))),
                Some(header) => if header.data_length > 0 {
                    (PartialPacket { header: Some(header), bytes: seq![] }, Ok(None))
                } else {
                    (
                        unread(),
                        match joined(header, seq![]) {
                            Ok(message) => Ok(Some(message)),
                            Err(error) => Err(error),
                        },
                    )
                },
            },
        }
    }
}

impl PacketReader {
    /// What was read of a packet.
    pub closed spec fn view(&self) -> PartialPacket {
        PartialPacket { header: self.header, bytes: self.bytes@ }
    }

    /// The part that is read is not whole.
    pub open spec fn wf(&self) -> bool {
        self@.bytes.len() < part_length(self@)
    }

    /// Reads from the beginning of a packet.
    pub fn new() -> (reader: PacketReader)
        ensures
            reader.wf(),
            reader@ == unread(),
    {
        let reader = PacketReader { header: None, bytes: Vec::new() };
        assert(reader@ =~= unread());
        reader
    }

    /// How many bytes to ask the bus for.
    pub fn wanted(&self) -> (length: u32)
        requires
            self.wf(),
        ensures
            length == part_length(self@) - self@.bytes.len(),
    {
        match &self.header {
            None => 24 - self.bytes.len() as u32,
            Some(header) => header.data_length - self.bytes.len() as u32,
        }
    }

    /// Whether a read may wait as long as it likes, and not only five seconds:
    /// only before a header may the bus be idle.
    pub fn may_wait(&self) -> (may: bool)
        ensures
            may == (self@.header is None),
    {
        self.header.is_none()
    }

    /// Forgets what was read.
    fn reset(&mut self)
        ensures
            final(self).wf(),
            final(self)@ == unread(),
    {
        self.header = None;
        self.bytes = Vec::new();
        assert(self.bytes@ =~= seq![]);
    }

    /// Takes the bytes of a read.
    pub fn on_bytes(&mut self, more: &[u8]) -> (message: AdbResult<Option<ADBTransportMessage>>)
        requires
            old(self).wf(),
            more@.len() <= part_length(old(self)@) - old(self)@.bytes.len(),
        ensures
            final(self).wf(),
            final(self)@ == read_next(old(self)@, more@).0,
            match read_next(old(self)@, more@).1 {
                Ok(None) => message is Ok && message->Ok_0 is None,
                Ok(Some(said)) => {
                    &&& message is Ok
                    &&& message->Ok_0 is Some
                    &&& message->Ok_0->0@ == said
                },
                Err(error) => message is Err && message->Err_0@ == error,
            },
    {
        if more.len() == 0 {
            let in_payload = self.header.is_some();
            self.reset();
            return if in_payload {
                Err(failure_of_payload("ADB USB interface returned no data"))
            } else {
                Err(RustADBError::UnexpectedEof(copy_text("ADB USB interface returned no data")))
            };
        }
        let wanted: u32 = self.wanted();
        push_bytes(&mut self.bytes, more);
        if (more.len() as u32) < wanted {
            return Ok(None);
        }
        let bytes: Vec<u8> = copy_bytes(&self.bytes, 0, self.bytes.len());
        assert(bytes@ =~= self.bytes@);
        match self.header {
            Some(header) => {
                self.reset();
                match ADBTransportMessage::from_header_and_payload(header, bytes) {
                    Ok(message) => Ok(Some(message)),
                    Err(error) => Err(error),
                }
            },
            None => {
                self.reset();
                match ADBTransportMessageHeader::parse(&bytes) {
                    Err(error) => Err(error),
                    Ok(header) => {
                        if header.data_length > 0 {
                            self.header = Some(header);
                            return Ok(None);
                        }
                        let empty: Vec<u8> = Vec::new();
                        assert(empty@ =~= seq![]);
                        match ADBTransportMessage::from_header_and_payload(header, empty) {
                            Ok(message) => Ok(Some(message)),
                            Err(error) => Err(error),
                        }
                    },
                }
            },
        }
    }

    /// Takes the failure of a read, with its text.
    pub fn on_error(&mut self, error: RustADBError<String>, text: &str) -> (failure: RustADBError<
        String,
    >)
        requires
            old(self).wf(),
        ensures
            failure@ == read_failure(old(self)@, error@, text@),
            final(self).wf(),
            final(self)@ == unread(),
    {
        let in_payload = self.header.is_some();
        self.reset();
        if in_payload {
            failure_of_payload(text)
        } else {
            error
        }
    }
}

/// The failure of a read inside a payload.
fn failure_of_payload(text: &str) -> (error: RustADBError<String>)
    ensures
        error@ == RustADBError::ADBRequestFailed("incomplete USB packet: "@ + text@),
{
    RustADBError::ADBRequestFailed(plus(copy_text("incomplete USB packet: "), text))
}

/// It does not matter how the bytes of a part of a packet are cut: two reads
/// leave what one would.
pub proof fn reading_ignores_boundaries(read: PartialPacket, first: Seq<u8>, second: Seq<u8>)
    requires
        first.len() > 0,
        second.len() > 0,
        read.bytes.len() + first.len() + second.len() <= part_length(read),
    ensures
        read_next(read, first).1 == Ok::<Option<Packet>, RustADBError<Seq<char>>>(None),
        read_next(read_next(read, first).0, second) == read_next(read, first + second),
{
    assert(read.bytes + first + second =~= read.bytes + (first + second));
}

/// A packet that is written to the bus is read off it, where its header describes
/// it, as that of every packet does that is built.
pub proof fn written_packets_are_read(message: ADBTransportMessage)
    requires
        message@.whole(),
    ensures
        ({
            let headed = read_next(unread(), header_bytes(message.header));
            if message.payload@.len() == 0 {
                headed == (
                    unread(),
                    Ok::<Option<Packet>, RustADBError<Seq<char>>>(Some(message@)),
                )
            } else {
                &&& headed.1 == Ok::<Option<Packet>, RustADBError<Seq<char>>>(None)
                &&& read_next(headed.0, message.payload@) == (
                    unread(),
                    Ok::<Option<Packet>, RustADBError<Seq<char>>>(Some(message@)),
                )
            }
        }),
{
    headers_round_trip(message.header);
    assert(unread().bytes + header_bytes(message.header) =~= header_bytes(message.header));
    assert(Seq::<u8>::empty() + message.payload@ =~= message.payload@);
    if message.payload@.len() == 0 {
        assert(message.payload@ =~= seq![]);
    }
}

/// A device on the bus.
#[derive(Debug)]
pub struct ADBUSBDevice {
    inner: ADBMessageDevice,
    vendor_id: u16,
    product_id: u16,
}

/// A device whose connection was begun, and what it asks for first.
pub type Begun<D> = (D, ConnectAction<ADBTransportMessage, Vec<u8>, RustADBError<String>>);

impl ADBUSBDevice {
    /// The device behind the bus.
    pub closed spec fn inner(&self) -> ADBMessageDevice {
        self.inner
    }

    /// The vendor identifier.
    pub closed spec fn vendor(&self) -> u16 {
        self.vendor_id
    }

    /// The product identifier.
    pub closed spec fn product(&self) -> u16 {
        self.product_id
    }

    /// The device was just begun: it has these identifiers and this key.
    pub open spec fn begins(
        begun: Begun<ADBUSBDevice>,
        vendor: u16,
        product: u16,
        key: Seq<char>,
    ) -> bool {
        &&& begun.0.inner().wf()
        &&& begun.0.inner().connection() == Connection::Seeking
        &&& begun.0.inner().key_path() == key
        &&& begun.0.vendor() == vendor
        &&& begun.0.product() == product
        &&& begun.1 is SeekKey
    }

    /// Begins the connection to the device with these identifiers among those on
    /// the bus, with the key at the default path.
    pub fn new(
        devices: &[UsbDevice],
        vendor_id: u16,
        product_id: u16,
        default_key_path: String,
    ) -> (begun: AdbResult<Begun<ADBUSBDevice>>)
        ensures
            if exists|i: int|
                0 <= i < devices@.len() && is_sought(
                    #[trigger] devices@[i],
                    vendor_id,
                    product_id,
                ) {
                begun is Ok && Self::begins(
                    begun->Ok_0,
                    vendor_id,
                    product_id,
                    default_key_path@,
                )
            } else {
                begun is Err && begun->Err_0@ == RustADBError::<Seq<char>>::USBDeviceNotFound(
                    vendor_id,
                    product_id,
                )
            },
    {
        Self::new_with_custom_private_key(devices, vendor_id, product_id, default_key_path)
    }

    /// Begins the connection to the device with these identifiers among those on
    /// the bus, with the key at a path.
    pub fn new_with_custom_private_key(
        devices: &[UsbDevice],
        vendor_id: u16,
        product_id: u16,
        private_key_path: String,
    ) -> (begun: AdbResult<Begun<ADBUSBDevice>>)
        ensures
            if exists|i: int|
                0 <= i < devices@.len() && is_sought(
                    #[trigger] devices@[i],
                    vendor_id,
                    product_id,
                ) {
                begun is Ok && Self::begins(
                    begun->Ok_0,
                    vendor_id,
                    product_id,
                    private_key_path@,
                )
            } else {
                begun is Err && begun->Err_0@ == RustADBError::<Seq<char>>::USBDeviceNotFound(
                    vendor_id,
                    product_id,
                )
            },
    {
        match USBTransport::new(devices, vendor_id, product_id) {
            Ok(transport) => Ok(Self::new_from_transport_inner(&transport, private_key_path)),
            Err(error) => Err(error),
        }
    }

    /// Begins the connection to the device with these identifiers that is at a
    /// location of the bus, with the key at a path. A location that is not known
    /// counts as zero.
    pub fn new_with_custom_private_key_at_location(
        devices: &[UsbDevice],
        vendor_id: u16,
        product_id: u16,
        location: u64,
        private_key_path: String,
    ) -> (begun: AdbResult<Begun<ADBUSBDevice>>)
        ensures
            if exists|i: int|
                0 <= i < devices@.len() && is_sought_at(
                    #[trigger] devices@[i],
                    vendor_id,
                    product_id,
                    location,
                ) {
                begun is Ok && Self::begins(
                    begun->Ok_0,
                    vendor_id,
                    product_id,
                    private_key_path@,
                )
            } else {
                begun is Err && begun->Err_0@ == RustADBError::<Seq<char>>::USBDeviceNotFound(
                    vendor_id,
                    product_id,
                )
            },
    {
        let mut i: usize = 0;
        while i < devices.len()
            invariant
                i <= devices@.len(),
                forall|j: int|
                    0 <= j < i ==> !is_sought_at(
                        #[trigger] devices@[j],
                        vendor_id,
                        product_id,
                        location,
                    ),
            decreases devices@.len() - i,
        {
            let place: u64 = match devices[i].location_id {
                Some(place) => place,
                None => 0,
            };
            if devices[i].vendor_id == vendor_id && devices[i].product_id == product_id
                && place == location && is_adb_device(&devices[i]) {
                assert(is_sought_at(devices@[i as int], vendor_id, product_id, location));
                return match USBTransport::new_from_device(&devices[i]) {
                    Ok(transport) => Ok(
                        Self::new_from_transport_inner(&transport, private_key_path),
                    ),
                    Err(error) => Err(error),
                };
            }
            i = i + 1;
        }
        Err(RustADBError::USBDeviceNotFound(vendor_id, product_id))
    }

    /// Begins the connection over a transport, with the key at a path or, without
    /// one, at the default path.
    pub fn new_from_transport(
        transport: &USBTransport,
        private_key_path: Option<String>,
        default_key_path: String,
    ) -> (begun: Begun<ADBUSBDevice>)
        ensures
            Self::begins(
                begun,
                transport.vendor(),
                transport.product(),
                match private_key_path {
                    Some(path) => path@,
                    None => default_key_path@,
                },
            ),
    {
        match private_key_path {
            Some(path) => Self::new_from_transport_inner(transport, path),
            None => Self::new_from_transport_inner(transport, default_key_path),
        }
    }

    /// Begins the connection over a transport.
    fn new_from_transport_inner(transport: &USBTransport, private_key_path: String) -> (begun:
        Begun<ADBUSBDevice>)
        ensures
            Self::begins(
                begun,
                transport.vendor(),
                transport.product(),
                private_key_path@,
            ),
    {
        let (inner, action) = ADBMessageDevice::new(private_key_path);
        (
            ADBUSBDevice {
                inner,
                vendor_id: transport.vendor_id(),
                product_id: transport.product_id(),
            },
            action,
        )
    }

    /// The vendor identifier.
    pub fn vendor_id(&self) -> (id: u16)
        ensures
            id == self.vendor(),
    {
        self.vendor_id
    }

    /// The product identifier.
    pub fn product_id(&self) -> (id: u16)
        ensures
            id == self.product(),
    {
        self.product_id
    }

    /// Begins the connection to the one Android device on the bus, with the key
    /// at the default path.
    pub fn autodetect(devices: &[UsbDevice], default_key_path: String) -> (begun: AdbResult<
        Begun<ADBUSBDevice>,
    >)
        ensures
            detects(
                android_devices(devices@, devices@.len() as int),
                default_key_path@,
                begun,
            ),
    {
        Self::autodetect_with_custom_private_key(devices, default_key_path)
    }

    /// Begins the connection to the one Android device on the bus, with the key
    /// at a path.
    pub fn autodetect_with_custom_private_key(
        devices: &[UsbDevice],
        private_key_path: String,
    ) -> (begun: AdbResult<Begun<ADBUSBDevice>>)
        ensures
            detects(
                android_devices(devices@, devices@.len() as int),
                private_key_path@,
                begun,
            ),
    {
        let found: Vec<ADBDeviceInfo> = find_all_connected_adb_devices(devices);
        assert(infos(found@).len() == found@.len());
        proof {
            if found@.len() > 0 {
                assert(infos(found@)[0] == found@[0]@);
            }
            if found@.len() > 1 {
                assert(infos(found@)[1] == found@[1]@);
            }
        }
        match get_single_connected_adb_device(&found) {
            Ok(Some(info)) => {
                proof {
                    lemma_android_device(devices@, devices@.len() as int, 0);
                }
                Self::new_with_custom_private_key(
                    devices,
                    info.vendor_id,
                    info.product_id,
                    private_key_path,
                )
            },
            Ok(None) => Err(
                RustADBError::DeviceNotFound(
                    copy_text("cannot find USB devices matching the signature of an ADB device"),
                ),
            ),
            Err(error) => Err(error),
        }
    }

    /// Whether the device is connected.
    pub fn is_connected(&self) -> (connected: bool)
        ensures
            connected == (self.inner().connection() is Connected),
    {
        self.inner.is_connected()
    }

    /// Where the private key is.
    pub fn private_key_path(&self) -> (path: &str)
        ensures
            path@ == self.inner().key_path(),
    {
        self.inner.private_key_path()
    }

    /// Goes on with the connection.
    pub fn on_event(&mut self, event: ConnectEvent<ADBTransportMessage, Vec<u8>>) -> (action:
        ConnectAction<ADBTransportMessage, Vec<u8>, RustADBError<String>>)
        requires
            old(self).inner().wf(),
            connect_fits(old(self).inner().connection(), event),
        ensures
            final(self).inner().wf(),
            final(self).inner().key_path() == old(self).inner().key_path(),
            final(self).vendor() == old(self).vendor(),
            final(self).product() == old(self).product(),
            (final(self).inner().connection(), connect_view(action)) == connect_next(
                old(self).inner().connection(),
                connect_event_view(event),
            ),
    {
        self.inner.on_event(event)
    }

    /// Adds a reverse route: opens the session that asks for it.
    pub fn reverse_forward(&self, remote: &str, local: &str) -> (opened: AdbResult<
        (u32, ADBTransportMessage),
    >)
        ensures
            opens(opened, destination(ADBLocalCommand::Reverse(remote@, local@))),
    {
        self.inner.reverse_forward(remote, local)
    }

    /// Serves a reverse route that the device has granted. A host endpoint that is
    /// no TCP port is refused.
    pub fn run_reverse_relay(&self, remote: String, local: &str) -> (relay: AdbResult<
        ReverseRelay,
    >)
        ensures
            match relay_port(local@) {
                Ok(port) => {
                    &&& relay is Ok
                    &&& relay->Ok_0.wf()
                    &&& relay->Ok_0.remote() == remote@
                    &&& relay->Ok_0.port() == port
                    &&& relay->Ok_0.streams() == Map::<u32, u32>::empty()
                },
                Err(error) => failed(relay, error),
            },
    {
        self.inner.run_reverse_relay(remote, local)
    }

    /// Removes a reverse route: opens the session that asks for it.
    pub fn remove_reverse_forward(&self, remote: &str) -> (opened: AdbResult<
        (u32, ADBTransportMessage),
    >)
        ensures
            opens(opened, destination(ADBLocalCommand::ReverseRemove(remote@))),
    {
        self.inner.remove_reverse_forward(remote)
    }

    /// Takes the answer to an attempt to open a session.
    pub fn on_opened(&self, local_id: u32, message: &ADBTransportMessage) -> (session: AdbResult<
        ADBSession,
    >)
        ensures
            match session_opened(local_id, message@) {
                Ok(opened) => session is Ok && session->Ok_0 == opened,
                Err(error) => failed(session, error),
            },
    {
        self.inner.on_opened(local_id, message)
    }

    /// Hands the transport of a connected device to a dispatcher.
    pub fn into_dispatched(self) -> (device: ADBDispatchedUSBDevice)
        requires
            self.inner().connection() is Connected,
        ensures
            device.inner().wf(),
            device.inner().fresh(),
            device.vendor() == self.vendor(),
            device.product() == self.product(),
    {
        let vendor_id: u16 = self.vendor_id;
        let product_id: u16 = self.product_id;
        ADBDispatchedUSBDevice { inner: self.inner.into_dispatched(), vendor_id, product_id }
    }
}

/// What detection begins: exactly one Android device must be there.
pub open spec fn detects(
    found: Seq<DeviceFacts>,
    key: Seq<char>,
    begun: AdbResult<Begun<ADBUSBDevice>>,
) -> bool {
    if found.len() == 0 {
        &&& begun is Err
        &&& begun->Err_0@ == RustADBError::DeviceNotFound(
            "cannot find USB devices matching the signature of an ADB device"@,
        )
    } else if found.len() == 1 {
        &&& begun is Ok
        &&& ADBUSBDevice::begins(
            begun->Ok_0,
            found[0].vendor_id,
            found[0].product_id,
            key,
        )
    } else {
        &&& begun is Err
        &&& begun->Err_0@ == RustADBError::DeviceNotFound(
            "Found two Android devices "@ + identifiers(found[0]) + " and "@ + identifiers(
                found[1],
            ),
        )
    }
}

/// A device that was found is on the bus, with the interface of the bridge.
proof fn lemma_android_device(devices: Seq<UsbDevice>, n: int, k: int)
    requires
        0 <= n <= devices.len(),
        0 <= k < android_devices(devices, n).len(),
    ensures
        exists|i: int|
            0 <= i < n && is_sought(
                #[trigger] devices[i],
                android_devices(devices, n)[k].vendor_id,
                android_devices(devices, n)[k].product_id,
            ),
    decreases n,
{
    if n > 0 {
        let before = android_devices(devices, n - 1);
        let info = android_devices(devices, n)[k];
        if k < before.len() {
            lemma_android_device(devices, n - 1, k);
            let i = choose|i: int|
                0 <= i < n - 1 && is_sought(
                    #[trigger] devices[i],
                    before[k].vendor_id,
                    before[k].product_id,
                );
            assert(is_sought(devices[i], info.vendor_id, info.product_id));
        } else {
            assert(is_sought(devices[n - 1], info.vendor_id, info.product_id));
        }
    }
}

/// A device on the bus whose packets one reader gives out.
#[derive(Debug)]
pub struct ADBDispatchedUSBDevice {
    inner: DispatchedADBMessageDevice,
    vendor_id: u16,
    product_id: u16,
}

impl ADBDispatchedUSBDevice {
    /// The device behind the bus.
    pub closed spec fn inner(&self) -> DispatchedADBMessageDevice {
        self.inner
    }

    /// The vendor identifier.
    pub closed spec fn vendor(&self) -> u16 {
        self.vendor_id
    }

    /// The product identifier.
    pub closed spec fn product(&self) -> u16 {
        self.product_id
    }

    /// The device that packets and events are handed to.
    pub fn shared(&mut self) -> (shared: &mut DispatchedADBMessageDevice)
        ensures
            *shared == old(self).inner(),
            final(self).inner() == *final(shared),
            final(self).vendor() == old(self).vendor(),
            final(self).product() == old(self).product(),
    {
        &mut self.inner
    }

    /// The port that a new forwarding rule listens on.
    pub fn serve_forward(&self, local: &str) -> (port: AdbResult<u16>)
        requires
            self.inner().wf(),
        ensures
            match forward_port(self.inner()@.forwards, local@) {
                Ok(number) => port is Ok && port->Ok_0 == number,
                Err(error) => failed(port, error),
            },
    {
        self.inner.serve_forward(local)
    }

    /// Lists the forwarding rules.
    pub fn forward_routes(&self) -> (list: Vec<(String, String)>)
        requires
            self.inner().wf(),
        ensures
            distinct(pair_texts(list@)),
            map_of(pair_texts(list@)) == self.inner()@.forwards.map_values(
                |rule: (Seq<char>, u64)| rule.0,
            ),
    {
        self.inner.forward_routes()
    }

    /// Removes a forwarding rule and says whether it was there.
    pub fn remove_forward(&mut self, local: &str) -> (removed: bool)
        requires
            old(self).inner().wf(),
        ensures
            final(self).vendor() == old(self).vendor(),
            final(self).product() == old(self).product(),
            final(self).inner().wf(),
            final(self).inner().next_ticket() == old(self).inner().next_ticket(),
            removed == old(self).inner()@.forwards.contains_key(local@),
            final(self).inner()@ == (Shared {
                forwards: old(self).inner()@.forwards.remove(local@),
                ..old(self).inner()@
            }),
    {
        self.inner.remove_forward(local)
    }

    /// Lists the reverse routes.
    pub fn reverse_routes(&self) -> (routes: AdbResult<Vec<(String, String)>>)
        requires
            self.inner().wf(),
        ensures
            if self.inner()@.board.alive {
                &&& routes is Ok
                &&& distinct(route_entries(routes->Ok_0@))
                &&& map_of(route_entries(routes->Ok_0@)) == self.inner()@.board.routes
            } else {
                failed(routes, "dispatcher stopped"@)
            },
    {
        self.inner.reverse_routes()
    }

    /// Removes every reverse route: `remove_reverse_forward` asks the device for the
    /// next of them, and `route_removed` takes the outcome.
    pub fn remove_all_reverse_routes(&self) -> (step: RemovalStep<RouteRemoval, AdbResult<()>>)
        requires
            self.inner().wf(),
        ensures
            removal_begins(self.inner()@, removal_view(step)),
    {
        self.inner.remove_all_reverse_routes()
    }

    /// Takes the outcome of asking the device to remove the next of the routes that
    /// are left.
    pub fn route_removed(&mut self, removal: RouteRemoval, outcome: AdbResult<()>) -> (step:
        RemovalStep<RouteRemoval, AdbResult<()>>)
        requires
            old(self).inner().wf(),
            removal.left().len() > 0,
        ensures
            final(self).vendor() == old(self).vendor(),
            final(self).product() == old(self).product(),
            final(self).inner().wf(),
            final(self).inner().next_ticket() == old(self).inner().next_ticket(),
            (final(self).inner()@, removal_view(step)) == removal_told(
                old(self).inner()@,
                removal.left(),
                match outcome {
                    Ok(()) => Ok(()),
                    Err(error) => Err(error@),
                },
            ),
    {
        self.inner.route_removed(removal, outcome)
    }

    /// Restarts the daemon of the device with root privileges.
    pub fn root(&mut self) -> (opened: AdbResult<(Operation, ADBTransportMessage)>)
        requires
            old(self).inner().wf(),
            has_room(old(self).inner()@.board.sessions),
        ensures
            final(self).vendor() == old(self).vendor(),
            final(self).product() == old(self).product(),
            final(self).inner().wf(),
            final(self).inner().next_ticket() == old(self).inner().next_ticket(),
            service_opened(
                old(self).inner()@,
                final(self).inner()@,
                destination(ADBLocalCommand::Root),
                Task::Drain,
                opened,
            ),
    {
        self.inner.root()
    }

    /// Remounts the partitions of the device writable.
    pub fn remount(&mut self) -> (opened: AdbResult<(Operation, ADBTransportMessage)>)
        requires
            old(self).inner().wf(),
            has_room(old(self).inner()@.board.sessions),
        ensures
            final(self).vendor() == old(self).vendor(),
            final(self).product() == old(self).product(),
            final(self).inner().wf(),
            final(self).inner().next_ticket() == old(self).inner().next_ticket(),
            service_opened(
                old(self).inner()@,
                final(self).inner()@,
                destination(ADBLocalCommand::Remount),
                Task::Drain,
                opened,
            ),
    {
        self.inner.remount()
    }

    /// Whether the transport is still connected.
    pub fn is_alive(&self) -> (alive: bool)
        ensures
            alive == self.inner()@.board.alive,
    {
        self.inner.is_alive()
    }

    /// Downloads a file.
    pub fn pull(&mut self, path: &str) -> (opened: AdbResult<(Operation, ADBTransportMessage)>)
        requires
            old(self).inner().wf(),
            has_room(old(self).inner()@.board.sessions),
        ensures
            final(self).vendor() == old(self).vendor(),
            final(self).product() == old(self).product(),
            final(self).inner().wf(),
            final(self).inner().next_ticket() == old(self).inner().next_ticket(),
            service_opened(
                old(self).inner()@,
                final(self).inner()@,
                destination(ADBLocalCommand::Sync),
                Task::Pull(path@),
                opened,
            ),
    {
        self.inner.pull(path)
    }

    /// Runs a command with raw output.
    pub fn exec_out(&mut self, command: &str) -> (opened: AdbResult<
        (Operation, ADBTransportMessage),
    >)
        requires
            old(self).inner().wf(),
            has_room(old(self).inner()@.board.sessions),
        ensures
            final(self).vendor() == old(self).vendor(),
            final(self).product() == old(self).product(),
            final(self).inner().wf(),
            final(self).inner().next_ticket() == old(self).inner().next_ticket(),
            service_opened(
                old(self).inner()@,
                final(self).inner()@,
                destination(ADBLocalCommand::Exec(command@)),
                Task::Drain,
                opened,
            ),
    {
        self.inner.exec_out(command)
    }

    /// Runs a command in the shell.
    pub fn shell_command(&mut self, command: &str) -> (opened: AdbResult<
        (Operation, ADBTransportMessage),
    >)
        requires
            old(self).inner().wf(),
            has_room(old(self).inner()@.board.sessions),
        ensures
            final(self).vendor() == old(self).vendor(),
            final(self).product() == old(self).product(),
            final(self).inner().wf(),
            final(self).inner().next_ticket() == old(self).inner().next_ticket(),
            service_opened(
                old(self).inner()@,
                final(self).inner()@,
                destination(ADBLocalCommand::ShellCommand(command@)),
                Task::Shell,
                opened,
            ),
    {
        self.inner.shell_command(command)
    }

    /// Uploads a file.
    pub fn push(&mut self, path: &str) -> (opened: AdbResult<(Operation, ADBTransportMessage)>)
        requires
            old(self).inner().wf(),
            has_room(old(self).inner()@.board.sessions),
        ensures
            final(self).vendor() == old(self).vendor(),
            final(self).product() == old(self).product(),
            final(self).inner().wf(),
            final(self).inner().next_ticket() == old(self).inner().next_ticket(),
            service_opened(
                old(self).inner()@,
                final(self).inner()@,
                destination(ADBLocalCommand::Sync),
                Task::Push(path@),
                opened,
            ),
    {
        self.inner.push(path)
    }

    /// Adds a reverse route. The route is there before the device is asked, and
    /// `reverse_forward_done` takes it back if the device refuses.
    pub fn reverse_forward(&mut self, remote: &str, local: &str) -> (opened: AdbResult<
        (Operation, ADBTransportMessage),
    >)
        requires
            old(self).inner().wf(),
            has_room(old(self).inner()@.board.sessions),
        ensures
            final(self).vendor() == old(self).vendor(),
            final(self).product() == old(self).product(),
            final(self).inner().wf(),
            final(self).inner().next_ticket() == old(self).inner().next_ticket(),
            reverse_begins(
                old(self).inner()@,
                final(self).inner()@,
                remote@,
                local@,
                opened,
            ),
    {
        self.inner.reverse_forward(remote, local)
    }

    /// Removes a reverse route: asks the device for it.
    pub fn remove_reverse_forward(&mut self, remote: &str) -> (opened: AdbResult<
        (Operation, ADBTransportMessage),
    >)
        requires
            old(self).inner().wf(),
            has_room(old(self).inner()@.board.sessions),
        ensures
            final(self).vendor() == old(self).vendor(),
            final(self).product() == old(self).product(),
            final(self).inner().wf(),
            final(self).inner().next_ticket() == old(self).inner().next_ticket(),
            service_opened(
                old(self).inner()@,
                final(self).inner()@,
                destination(ADBLocalCommand::ReverseRemove(remote@)),
                Task::Collect,
                opened,
            ),
    {
        self.inner.remove_reverse_forward(remote)
    }

    /// Makes the device listen on a TCP port.
    pub fn tcpip(&mut self, port: u16) -> (opened: AdbResult<(Operation, ADBTransportMessage)>)
        requires
            old(self).inner().wf(),
            has_room(old(self).inner()@.board.sessions),
        ensures
            final(self).vendor() == old(self).vendor(),
            final(self).product() == old(self).product(),
            final(self).inner().wf(),
            final(self).inner().next_ticket() == old(self).inner().next_ticket(),
            service_opened(
                old(self).inner()@,
                final(self).inner()@,
                destination(ADBLocalCommand::TcpIp(port)),
                Task::Drain,
                opened,
            ),
    {
        self.inner.tcpip(port)
    }

    /// Removes every forwarding rule and says how many there were.
    pub fn remove_all_forwards(&mut self) -> (count: usize)
        requires
            old(self).inner().wf(),
        ensures
            final(self).vendor() == old(self).vendor(),
            final(self).product() == old(self).product(),
            final(self).inner().wf(),
            final(self).inner().next_ticket() == old(self).inner().next_ticket(),
            old(self).inner()@.forwards.dom().finite(),
            count == old(self).inner()@.forwards.dom().len(),
            final(self).inner()@ == (Shared {
                forwards: Map::<Seq<char>, (Seq<char>, u64)>::empty(),
                ..old(self).inner()@
            }),
    {
        self.inner.remove_all_forwards()
    }
}

/// A device is spoken to by the interface of class 255, subclass 66 and protocol 1.
pub proof fn bridges_have_their_class(interfaces: Seq<UsbInterface>, i: int)
    ensures
        0 <= i < interfaces.len() && interfaces[i].class == 255 && interfaces[i].subclass == 66
            && interfaces[i].protocol == 1 ==> has_bridge(interfaces),
        (forall|j: int|
            0 <= j < interfaces.len() ==> (#[trigger] interfaces[j]).class != 255
                || interfaces[j].subclass != 66 || interfaces[j].protocol != 1) ==> !has_bridge(
            interfaces,
        ),
{
    if 0 <= i < interfaces.len() && interfaces[i].class == 255 && interfaces[i].subclass == 66
        && interfaces[i].protocol == 1 {
        assert(is_bridge(interfaces[i]));
    }
}

/// The devices that are found are those that can be spoken to, each with what it says
/// of itself, in the order of the bus.
pub proof fn devices_are_found_in_order(devices: Seq<UsbDevice>)
    ensures
        android_devices(devices, devices.len() as int) == devices.filter(
            |device: UsbDevice| has_bridge(device.interfaces@),
        ).map_values(|device: UsbDevice| facts(device)),
    decreases devices.len(),
{
    reveal(Seq::filter);
    let spoken = |device: UsbDevice| has_bridge(device.interfaces@);
    let told = |device: UsbDevice| facts(device);
    if devices.len() > 0 {
        let before = devices.drop_last();
        devices_are_found_in_order(before);
        lemma_first_devices(devices, before, before.len() as int);
        if spoken(devices.last()) {
            assert(before.filter(spoken).push(devices.last()).map_values(told)
                =~= before.filter(spoken).map_values(told).push(told(devices.last())));
        }
    } else {
        assert(devices.filter(spoken).map_values(told) =~= seq![]);
    }
}

/// What is found among the first devices of two buses that begin alike is the same.
proof fn lemma_first_devices(devices: Seq<UsbDevice>, others: Seq<UsbDevice>, n: int)
    requires
        n <= devices.len(),
        n <= others.len(),
        forall|i: int| 0 <= i < n ==> devices[i] == others[i],
    ensures
        android_devices(devices, n) == android_devices(others, n),
    decreases n,
{
    if n > 0 {
        lemma_first_devices(devices, others, n - 1);
    }
}

/// A device is described by its maker and its name with a space between them, or by
/// the one that it tells.
pub proof fn devices_are_described(device: UsbDevice)
    ensures
        facts(device).vendor_id == device.vendor_id,
        facts(device).product_id == device.product_id,
        facts(device).location_id == device.location_id,
        device.serial matches Some(serial) ==> facts(device).serial == Some(serial@),
        device.serial is None ==> facts(device).serial is None,
        match (device.manufacturer, device.product) {
            (Some(maker), Some(name)) => facts(device).device_description == maker@ + " "@ + name@,
            (Some(maker), None) => facts(device).device_description == maker@,
            (None, Some(name)) => facts(device).device_description == name@,
            (None, None) => facts(device).device_description.len() == 0,
        },
{
}

/// A device is named by its maker's number and its own, in four hexadecimal digits
/// each.
pub proof fn devices_are_named_by_number(info: DeviceFacts)
    ensures
        identifiers(info) == hex(info.vendor_id as nat, 4) + ":"@ + hex(info.product_id as nat, 4),
{
}

/// A device is sought by both of its numbers, and by its place where one is given; a
/// device without a place is at place zero.
pub proof fn devices_are_sought_by_number(
    device: UsbDevice,
    vendor_id: u16,
    product_id: u16,
    location: u64,
)
    ensures
        is_sought(device, vendor_id, product_id) <==> has_bridge(device.interfaces@)
            && device.vendor_id == vendor_id && device.product_id == product_id,
        device.location_id matches Some(place) ==> (is_sought_at(
            device,
            vendor_id,
            product_id,
            location,
        ) <==> is_sought(device, vendor_id, product_id) && place == location),
        device.location_id is None ==> (is_sought_at(device, vendor_id, product_id, location)
            <==> is_sought(device, vendor_id, product_id) && location == 0),
{
}

/// Two codes of the bus say that a wait expired, and every other that a transfer
/// failed.
pub proof fn codes_tell_waits_from_failures(operation: Seq<char>, status: u32)
    ensures
        status == 0xe00002d6 || status == 0xe0004051 ==> status_error(operation, status)
            == RustADBError::TimedOut("macOS IOKit USB "@ + operation + " timed out"@),
        status != 0xe00002d6 && status != 0xe0004051 ==> status_error(operation, status)
            == RustADBError::ADBRequestFailed(
            "macOS IOKit USB "@ + operation + " failed (0x"@ + hex(status as nat, 8) + ")"@,
        ),
{
}

/// A payload must add up to what its header announces, and the header must end with the
/// complement of its command.
pub proof fn payloads_add_up(header: ADBTransportMessageHeader, payload: Seq<u8>)
    ensures
        joined(header, payload) is Ok <==> header.data_crc32 as int == byte_sum(payload)
            % 0x1_0000_0000 && header.magic == command_code(header.command) ^ 0xffff_ffffu32,
        joined(header, payload) is Ok ==> ({
            let message = joined(header, payload)->Ok_0;
            &&& message.command == header.command
            &&& message.arg0 == header.arg0
            &&& message.arg1 == header.arg1
            &&& message.payload == payload
        }),
        joined(header, payload) is Err ==> match joined(header, payload)->Err_0 {
            RustADBError::InvalidIntegrity(actual, announced) => actual as int == byte_sum(payload)
                % 0x1_0000_0000 && announced == header.data_crc32,
            _ => false,
        },
{
}

/// A transfer that ends while a packet is awaited is an end of the stream, and one that
/// ends within a packet leaves it incomplete; either way reading begins anew.
pub proof fn streams_end_between_packets(bytes: Seq<u8>, header: ADBTransportMessageHeader)
    ensures
        ({
            let text = "ADB USB interface returned no data"@;
            let waiting = PartialPacket { header: None, bytes };
            let within = PartialPacket { header: Some(header), bytes };
            &&& read_next(waiting, seq![]) == (
                PartialPacket { header: None, bytes: seq![] },
                Err::<Option<Packet>, RustADBError<Seq<char>>>(RustADBError::UnexpectedEof(text)),
            )
            &&& read_next(within, seq![]) == (
                PartialPacket { header: None, bytes: seq![] },
                Err::<Option<Packet>, RustADBError<Seq<char>>>(
                    RustADBError::ADBRequestFailed("incomplete USB packet: "@ + text),
                ),
            )
        }),
{
}

/// The only device that is found is taken; with none, or with more than one, the
/// failure says so, and names the first two.
pub proof fn the_only_device_is_taken(
    found: Seq<DeviceFacts>,
    key: Seq<char>,
    begun: AdbResult<Begun<ADBUSBDevice>>,
)
    requires
        detects(found, key, begun),
    ensures
        begun is Ok <==> found.len() == 1,
        begun is Ok ==> {
            &&& begun->Ok_0.0.vendor() == found[0].vendor_id
            &&& begun->Ok_0.0.product() == found[0].product_id
            &&& begun->Ok_0.0.inner().key_path() == key
            &&& begun->Ok_0.0.inner().connection() is Seeking
            &&& begun->Ok_0.1 is SeekKey
        },
        found.len() == 0 ==> begun->Err_0@ == RustADBError::DeviceNotFound(
            "cannot find USB devices matching the signature of an ADB device"@,
        ),
        found.len() > 1 ==> begun->Err_0@ == RustADBError::DeviceNotFound(
            "Found two Android devices "@ + hex(found[0].vendor_id as nat, 4) + ":"@ + hex(
                found[0].product_id as nat,
                4,
            ) + " and "@ + hex(found[1].vendor_id as nat, 4) + ":"@ + hex(
                found[1].product_id as nat,
                4,
            ),
        ),
{
    if found.len() > 1 {
        let first = "Found two Android devices "@;
        let vendor = hex(found[0].vendor_id as nat, 4);
        let product = hex(found[0].product_id as nat, 4);
        let other = hex(found[1].vendor_id as nat, 4);
        let another = hex(found[1].product_id as nat, 4);
        assert(first + (vendor + ":"@ + product) + " and "@ + (other + ":"@ + another) =~= first
            + vendor + ":"@ + product + " and "@ + other + ":"@ + another);
    }
}

/// A header whose command is none of the known ones is refused.
pub proof fn unknown_commands_are_refused(bytes: Seq<u8>)
    requires
        bytes.len() == 24,
        forall|command: MessageCommand| command_code(command) != le32_value(bytes),
    ensures
        read_next(PartialPacket { header: None, bytes: seq![] }, bytes) == (
            PartialPacket { header: None, bytes: seq![] },
            Err::<Option<Packet>, RustADBError<Seq<char>>>(
                RustADBError::ADBRequestFailed("unknown ADB command"@),
            ),
        ),
{
    let nothing: Seq<u8> = seq![];
    assert(nothing + bytes =~= bytes);
}

} // verus!
