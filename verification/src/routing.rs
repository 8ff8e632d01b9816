//! Finding the device that a command is for.
//!
//! A command goes to a server that other tools share, to a device over TCP, or
//! to a device on the bus. What is to be known for the choice is asked for step
//! by step.

use crate::control::transport_id;
use crate::endpoints::{first_transport, Endpoint, EndpointKey, EndpointSet};
use crate::install::ADBServerDevice;
use crate::invocation::{Selected, Selection};
use crate::listing::{usb_transport, usb_transport_id};
use crate::table::has_key;
use crate::text::{
    chars_of, complains, copy_text, lines, lines_of, optional_text, plus, same_text, texts,
};
use crate::usb::{infos, ADBDeviceInfo, DeviceFacts};
use vstd::prelude::*;

verus! {

/// How a server that other tools share is used.
#[derive(Clone, Copy, Debug, PartialEq, Eq, Structural)]
pub enum ServerMode {
    /// Not at all.
    Direct,
    /// Where one is there.
    Auto,
    /// It must be there.
    Server,
}

/// The mode that a setting names; without one a server is used where it is
/// there.
pub open spec fn mode_asked(setting: Option<Seq<char>>) -> Result<ServerMode, Seq<char>> {
    match setting {
        None => Ok(ServerMode::Auto),
        Some(name) => if name == "direct"@ {
            Ok(ServerMode::Direct)
        } else if name == "auto"@ {
            Ok(ServerMode::Auto)
        } else if name == "server"@ {
            Ok(ServerMode::Server)
        } else {
            Err("invalid MACANDROIDBRIDGE_ADB_MODE: "@ + name)
        },
    }
}

/// Reads the mode that a setting names.
pub fn parse_server_mode(setting: Option<&str>) -> (mode: Result<ServerMode, String>)
    ensures
        match mode_asked(
            match setting {
                Some(name) => Some(name@),
                None => None,
            },
        ) {
            Ok(asked) => mode is Ok && mode->Ok_0 == asked,
            Err(error) => complains(mode, error),
        },
{
    match setting {
        None => Ok(ServerMode::Auto),
        Some(name) => {
            if same_text(name, "direct") {
                Ok(ServerMode::Direct)
            } else if same_text(name, "auto") {
                Ok(ServerMode::Auto)
            } else if same_text(name, "server") {
                Ok(ServerMode::Server)
            } else {
                Err(plus(copy_text("invalid MACANDROIDBRIDGE_ADB_MODE: "), name))
            }
        },
    }
}

/// What becomes of a server that does not list its devices: where none has to be
/// there and nothing listens at the address, there is none.
pub fn judge_silent_server(
    must_be_there: bool,
    address: &str,
    error: &str,
    listening: bool,
) -> (judged: Result<(), String>)
    ensures
        if must_be_there {
            complains(
                judged,
                "existing ADB server at "@ + address@ + " is unavailable: "@ + error@,
            )
        } else if listening {
            complains(
                judged,
                "existing ADB server at "@ + address@
                    + " rejected the compatibility request: "@ + error@,
            )
        } else {
            judged is Ok
        },
{
    let front: String = plus(copy_text("existing ADB server at "), address);
    if must_be_there {
        Err(plus(plus(front, " is unavailable: "), error))
    } else if listening {
        Err(plus(plus(front, " rejected the compatibility request: "), error))
    } else {
        Ok(())
    }
}

/// Names a device to a server: by its transport, or else by its serial number,
/// or else as the only one.
pub fn server_device(serial: Option<String>, transport_id: Option<u64>) -> (device: Result<
    ADBServerDevice,
    String,
>)
    ensures
        match transport_id {
            Some(id) => if id > u32::MAX {
                complains(device, "ADB server transport id exceeds u32"@)
            } else {
                &&& device is Ok
                &&& device->Ok_0.serial is None
                &&& device->Ok_0.transport_id == Some(id as u32)
            },
            None => {
                &&& device is Ok
                &&& optional_text(device->Ok_0.serial) == optional_text(serial)
                &&& device->Ok_0.transport_id is None
            },
        },
{
    match transport_id {
        Some(id) => {
            if id > u32::MAX as u64 {
                Err(copy_text("ADB server transport id exceeds u32"))
            } else {
                Ok(ADBServerDevice { serial: None, transport_id: Some(id as u32) })
            }
        },
        None => Ok(ADBServerDevice { serial, transport_id: None }),
    }
}

/// A device that a server lists.
#[derive(Debug)]
pub struct ServerDevice {
    /// Its serial number or address.
    pub identifier: String,
    /// Its state.
    pub state: String,
    /// The number of its transport.
    pub transport_id: u32,
    /// All that the server says of it.
    pub description: String,
}

/// What a server says of a device.
#[verifier::ext_equal]
pub ghost struct ServerFacts {
    /// Its serial number or address.
    pub identifier: Seq<char>,
    /// Its state.
    pub state: Seq<char>,
    /// The number of its transport.
    pub transport_id: u32,
    /// All that the server says of it.
    pub description: Seq<char>,
}

/// A server and the devices that it lists.
#[derive(Debug)]
pub struct ServerInfo {
    /// The address of the server.
    pub address: String,
    /// The devices.
    pub devices: Vec<ServerDevice>,
}

/// A server and what it says of its devices.
#[verifier::ext_equal]
pub ghost struct ServerTold {
    /// The address of the server.
    pub address: Seq<char>,
    /// The devices.
    pub devices: Seq<ServerFacts>,
}

impl ServerDevice {
    /// What the server says of the device.
    pub open spec fn view(&self) -> ServerFacts {
        ServerFacts {
            identifier: self.identifier@,
            state: self.state@,
            transport_id: self.transport_id,
            description: self.description@,
        }
    }
}

impl ServerInfo {
    /// The server and what it says of its devices.
    pub open spec fn view(&self) -> ServerTold {
        ServerTold {
            address: self.address@,
            devices: self.devices@.map_values(|device: ServerDevice| device@),
        }
    }
}

/// What the search for a device waits for.
#[derive(Debug)]
pub enum RouteWait<E> {
    /// The devices of a server.
    Server,
    /// Whether the serial number is an address.
    Address,
    /// The saved addresses; this one has to be among them.
    BySerial(E),
    /// The saved addresses; one of them may have the transport.
    ById,
    /// The devices on the bus.
    Usb,
    /// What a device on the bus says of itself.
    Serial,
    /// Nothing more.
    Ended,
}

/// What the search for a device asks for.
#[derive(Debug)]
pub enum RouteAction<T, P> {
    /// The devices of a server, where there is one.
    AskServer,
    /// The address that a text is, if it is one.
    AskAddress(T),
    /// The saved addresses.
    AskSaved,
    /// The devices on the bus.
    AskUsb,
    /// What a device on the bus says of itself, by its place in the list.
    AskSerial(usize),
    /// The search has ended.
    Finish(Result<P, T>),
}

/// What became known.
#[derive(Debug)]
pub enum RouteEvent<S, E, L, D, T> {
    /// The server.
    Server(Option<S>),
    /// The address.
    Address(Option<E>),
    /// The saved addresses.
    Saved(L),
    /// The devices on the bus.
    Usb(D),
    /// What the device says of itself, if it answers.
    Details(Option<T>),
}

/// What is to be done for a command.
#[derive(Debug)]
pub enum Plan<T, L, E, D> {
    /// Print a line.
    Print(T),
    /// Nothing.
    Nothing,
    /// Print the devices of a server, and then the saved addresses that are not
    /// among its identifiers.
    ServerDevices {
        /// The lines that tell of the devices of the server.
        lines: L,
        /// Their identifiers.
        identifiers: L,
    },
    /// Run the command through the server.
    Server,
    /// Run the command on a device over TCP.
    Wireless(E),
    /// Wait until there is a device on the bus.
    WaitForDevice,
    /// Tell of the devices on the bus as they come and go.
    TrackDevices,
    /// Print the devices on the bus and the saved addresses.
    Devices,
    /// Run the command on a device on the bus.
    Usb(D),
}

/// An address and its text.
pub type Peer = (EndpointKey, Seq<char>);

/// What a plan says.
pub type PlanView = Plan<Seq<char>, Seq<Seq<char>>, Peer, DeviceFacts>;

/// What came to be known, as plain values.
pub type RouteEventView = RouteEvent<
    ServerTold,
    Peer,
    Seq<Peer>,
    Seq<DeviceFacts>,
    Seq<char>,
>;

/// How far the search for a device has come.
#[verifier::ext_equal]
pub ghost struct RouteState {
    /// The command and its arguments.
    pub args: Seq<Seq<char>>,
    /// What was selected.
    pub selection: Selected,
    /// The devices on the bus.
    pub devices: Seq<DeviceFacts>,
    /// The device that is looked at.
    pub index: int,
    /// The devices that fit.
    pub matched: Seq<int>,
    /// What is waited for.
    pub wait: RouteWait<Peer>,
}

/// A search and what it asks for.
pub type RouteStep = (RouteState, RouteAction<Seq<char>, PlanView>);

/// A search that has ended.
pub open spec fn route_ends(state: RouteState, result: Result<PlanView, Seq<char>>) -> RouteStep {
    (RouteState { wait: RouteWait::Ended, ..state }, RouteAction::Finish(result))
}

/// Whether a command has a name.
pub open spec fn named(args: Seq<Seq<char>>, name: Seq<char>) -> bool {
    args.len() > 0 && args[0] == name
}

/// Whether the arguments are those of a list of devices.
pub open spec fn lists_devices(args: Seq<Seq<char>>) -> bool {
    args.len() == 1 || args.len() == 2 && args[1] == "-l"@
}

/// Whether a device of a server is selected.
pub open spec fn server_fits(device: ServerFacts, selection: Selected) -> bool {
    &&& selection.serial is Some ==> device.identifier == selection.serial->0
    &&& selection.transport_id is Some ==> device.transport_id == selection.transport_id->0
}

/// How many of the first devices of a server are selected.
pub open spec fn server_count(devices: Seq<ServerFacts>, selection: Selected) -> nat
    decreases devices.len(),
{
    if devices.len() == 0 {
        0
    } else {
        server_count(devices.drop_last(), selection) + if server_fits(devices.last(), selection) {
            1
        } else {
            0nat
        }
    }
}

/// The line that tells of a device of a server.
pub open spec fn server_line(device: ServerFacts, long: bool) -> Seq<char> {
    if long {
        device.description + " mab_transport:server"@
    } else {
        device.identifier + "\t"@ + device.state
    }
}

/// How the search goes on without a server.
pub open spec fn route_local(state: RouteState) -> RouteStep {
    if state.selection.endpoint is None && state.selection.serial is Some {
        (
            RouteState { wait: RouteWait::Address, ..state },
            RouteAction::AskAddress(state.selection.serial->0),
        )
    } else {
        route_by_id(state)
    }
}

/// How the search goes on where the serial number is no address.
pub open spec fn route_by_id(state: RouteState) -> RouteStep {
    if state.selection.endpoint is None && state.selection.transport_id is Some {
        (RouteState { wait: RouteWait::ById, ..state }, RouteAction::AskSaved)
    } else {
        route_usb(state)
    }
}

/// How the search goes on where no saved address is selected.
pub open spec fn route_usb(state: RouteState) -> RouteStep {
    (RouteState { wait: RouteWait::Usb, ..state }, RouteAction::AskUsb)
}

/// How the search goes on once it is known whether there is a server.
pub open spec fn route_served(state: RouteState, server: Option<ServerTold>) -> RouteStep {
    let args = state.args;
    let selected = state.selection.serial is Some || state.selection.transport_id is Some;
    if named(args, "server-status"@) {
        if args.len() != 1 {
            route_ends(state, Err("server-status does not accept arguments"@))
        } else {
            match server {
                None => route_ends(state, Err("no compatible ADB server is running"@)),
                Some(told) => route_ends(
                    state,
                    Ok(Plan::Print("ADB server available at "@ + told.address)),
                ),
            }
        }
    } else {
        match server {
            None => route_local(state),
            Some(told) => if named(args, "devices"@) {
                if !lists_devices(args) {
                    route_ends(state, Err("usage: adb devices [-l]"@))
                } else {
                    route_ends(
                        state,
                        Ok(
                            Plan::ServerDevices {
                                lines: told.devices.map_values(
                                    |device: ServerFacts| server_line(device, args.len() == 2),
                                ),
                                identifiers: told.devices.map_values(
                                    |device: ServerFacts| device.identifier,
                                ),
                            },
                        ),
                    )
                }
            } else if named(args, "start-server"@) && args.len() == 1 {
                route_ends(state, Ok(Plan::Nothing))
            } else if named(args, "wait-for-device"@) && args.len() == 1 && told.devices.len()
                > 0 {
                route_ends(state, Ok(Plan::Nothing))
            } else if if selected {
                server_count(told.devices, state.selection) == 1
            } else {
                told.devices.len() == 1
            } {
                route_ends(state, Ok(Plan::Server))
            } else if told.devices.len() > 0 && !selected && !named(args, "start-server"@)
                && !named(args, "wait-for-device"@) {
                route_ends(
                    state,
                    Err(
                        "multiple devices connected through ADB server; select one with -s or -t"@,
                    ),
                )
            } else {
                route_local(state)
            },
        }
    }
}

/// Whether a device on the bus is selected by its identifiers and its transport.
pub open spec fn usb_fits(device: DeviceFacts, selection: Selected) -> bool {
    &&& match selection.endpoint {
        None => true,
        Some(endpoint) => {
            &&& device.vendor_id == endpoint.vendor
            &&& device.product_id == endpoint.product
            &&& endpoint.location is Some ==> device.location_id == endpoint.location
        },
    }
    &&& selection.transport_id is Some ==> usb_transport(device) == selection.transport_id->0
}

/// Looks at the devices on the bus from the current one on, until one has to say
/// its serial number. Exactly one device must fit.
pub open spec fn route_matching(state: RouteState) -> RouteStep
    decreases state.devices.len() - state.index,
{
    if state.index >= state.devices.len() {
        if state.matched.len() == 1 {
            route_ends(state, Ok(Plan::Usb(state.devices[state.matched[0]])))
        } else if state.matched.len() == 0 {
            route_ends(state, Err("selected Android USB device is not connected"@))
        } else {
            route_ends(
                state,
                Err("multiple matching Android USB devices; select a unique device"@),
            )
        }
    } else {
        let device = state.devices[state.index];
        if !usb_fits(device, state.selection) {
            route_matching(RouteState { index: state.index + 1, ..state })
        } else if state.selection.serial is None || device.serial == state.selection.serial {
            route_matching(
                RouteState {
                    index: state.index + 1,
                    matched: state.matched.push(state.index),
                    ..state
                },
            )
        } else {
            (
                RouteState { wait: RouteWait::Serial, ..state },
                RouteAction::AskSerial(state.index as usize),
            )
        }
    }
}

/// How the search goes on once the devices on the bus are known.
pub open spec fn route_found(state: RouteState) -> RouteStep {
    let args = state.args;
    if named(args, "start-server"@) {
        route_ends(state, Ok(Plan::Nothing))
    } else if named(args, "wait-for-device"@) {
        if args.len() != 1 {
            route_ends(state, Err("wait-for-device does not accept arguments"@))
        } else {
            route_ends(state, Ok(Plan::WaitForDevice))
        }
    } else if named(args, "track-devices"@) {
        if args.len() != 1 {
            route_ends(state, Err("track-devices does not accept arguments"@))
        } else {
            route_ends(state, Ok(Plan::TrackDevices))
        }
    } else if named(args, "devices"@) {
        if !lists_devices(args) {
            route_ends(state, Err("usage: adb devices [-l]"@))
        } else {
            route_ends(state, Ok(Plan::Devices))
        }
    } else if named(args, "features"@) {
        route_ends(state, Ok(Plan::Print("shell_v2,cmd,sendrecv_v2"@)))
    } else {
        route_matching(state)
    }
}

/// Whether what a device says of itself begins with a serial number.
pub open spec fn tells_serial(details: Option<Seq<char>>, serial: Option<Seq<char>>) -> bool {
    match details {
        None => false,
        Some(text) => lines(text).len() > 0 && Some(lines(text)[0]) == serial,
    }
}

/// Whether an event is one that a search can get.
pub open spec fn route_fits<W, S, E, L, D, T>(
    wait: RouteWait<W>,
    event: RouteEvent<S, E, L, D, T>,
) -> bool {
    match wait {
        RouteWait::Server => event is Server,
        RouteWait::Address => event is Address,
        RouteWait::BySerial(_) | RouteWait::ById => event is Saved,
        RouteWait::Usb => event is Usb,
        RouteWait::Serial => event is Details,
        RouteWait::Ended => false,
    }
}

/// How the search goes on once something is known.
pub open spec fn route_next(state: RouteState, event: RouteEventView) -> RouteStep {
    match (state.wait, event) {
        (RouteWait::Server, RouteEvent::Server(server)) => route_served(state, server),
        (RouteWait::Address, RouteEvent::Address(Some(address))) => (
            RouteState { wait: RouteWait::BySerial(address), ..state },
            RouteAction::AskSaved,
        ),
        (RouteWait::Address, RouteEvent::Address(None)) => route_by_id(state),
        (RouteWait::BySerial(address), RouteEvent::Saved(saved)) => if has_key(saved, address.0) {
            route_ends(state, Ok(Plan::Wireless(address)))
        } else {
            route_ends(
                state,
                Err(
                    "selected wireless Android device is not connected; run adb connect HOST:PORT first"@,
                ),
            )
        },
        (RouteWait::ById, RouteEvent::Saved(saved)) => match first_transport(
            saved,
            state.selection.transport_id->0,
        ) {
            Some(address) => route_ends(state, Ok(Plan::Wireless(address))),
            None => route_usb(state),
        },
        (RouteWait::Usb, RouteEvent::Usb(devices)) => route_found(
            RouteState { devices, index: 0, matched: seq![], ..state },
        ),
        (RouteWait::Serial, RouteEvent::Details(details)) => route_matching(
            RouteState {
                index: state.index + 1,
                matched: if tells_serial(details, state.selection.serial) {
                    state.matched.push(state.index)
                } else {
                    state.matched
                },
                ..state
            },
        ),
        _ => route_ends(state, Ok(Plan::Nothing)),
    }
}

/// How the search for a device begins.
pub open spec fn route_begin(args: Seq<Seq<char>>, selection: Selected) -> RouteStep {
    let state = RouteState {
        args,
        selection,
        devices: seq![],
        index: 0,
        matched: seq![],
        wait: RouteWait::Server,
    };
    if selection.endpoint is None {
        (state, RouteAction::AskServer)
    } else {
        route_served(state, None)
    }
}

/// The search for the device that a command is for.
#[derive(Debug)]
pub struct Routing {
    args: Vec<String>,
    selection: Selection,
    devices: Vec<ADBDeviceInfo>,
    index: usize,
    matched: Vec<usize>,
    wait: RouteWait<Endpoint>,
}

/// What a search asks for, as it runs.
pub type RouteAsk = RouteAction<String, Plan<String, Vec<String>, Endpoint, ADBDeviceInfo>>;

/// What becomes known to a search, as it runs.
pub type RouteNews = RouteEvent<ServerInfo, Endpoint, EndpointSet, Vec<ADBDeviceInfo>, String>;

/// What is waited for, as plain values.
pub open spec fn route_wait_view(wait: RouteWait<Endpoint>) -> RouteWait<Peer> {
    match wait {
        RouteWait::Server => RouteWait::Server,
        RouteWait::Address => RouteWait::Address,
        RouteWait::BySerial(endpoint) => RouteWait::BySerial(endpoint@),
        RouteWait::ById => RouteWait::ById,
        RouteWait::Usb => RouteWait::Usb,
        RouteWait::Serial => RouteWait::Serial,
        RouteWait::Ended => RouteWait::Ended,
    }
}

/// What a plan says, as plain values.
pub open spec fn plan_view(plan: Plan<String, Vec<String>, Endpoint, ADBDeviceInfo>) -> PlanView {
    match plan {
        Plan::Print(line) => Plan::Print(line@),
        Plan::Nothing => Plan::Nothing,
        Plan::ServerDevices { lines, identifiers } => Plan::ServerDevices {
            lines: texts(lines@),
            identifiers: texts(identifiers@),
        },
        Plan::Server => Plan::Server,
        Plan::Wireless(endpoint) => Plan::Wireless(endpoint@),
        Plan::WaitForDevice => Plan::WaitForDevice,
        Plan::TrackDevices => Plan::TrackDevices,
        Plan::Devices => Plan::Devices,
        Plan::Usb(device) => Plan::Usb(device@),
    }
}

/// What is asked for, as plain values.
pub open spec fn route_action_view(action: RouteAsk) -> RouteAction<Seq<char>, PlanView> {
    match action {
        RouteAction::AskServer => RouteAction::AskServer,
        RouteAction::AskAddress(text) => RouteAction::AskAddress(text@),
        RouteAction::AskSaved => RouteAction::AskSaved,
        RouteAction::AskUsb => RouteAction::AskUsb,
        RouteAction::AskSerial(index) => RouteAction::AskSerial(index),
        RouteAction::Finish(Ok(plan)) => RouteAction::Finish(Ok(plan_view(plan))),
        RouteAction::Finish(Err(error)) => RouteAction::Finish(Err(error@)),
    }
}

/// What became known, as plain values.
pub open spec fn route_event_view(event: RouteNews) -> RouteEventView {
    match event {
        RouteEvent::Server(Some(server)) => RouteEvent::Server(Some(server@)),
        RouteEvent::Server(None) => RouteEvent::Server(None),
        RouteEvent::Address(Some(endpoint)) => RouteEvent::Address(Some(endpoint@)),
        RouteEvent::Address(None) => RouteEvent::Address(None),
        RouteEvent::Saved(set) => RouteEvent::Saved(set.listed()),
        RouteEvent::Usb(devices) => RouteEvent::Usb(infos(devices@)),
        RouteEvent::Details(details) => RouteEvent::Details(optional_text(details)),
    }
}

/// The places in a list, as plain numbers.
pub open spec fn places(list: Seq<usize>) -> Seq<int> {
    list.map_values(|place: usize| place as int)
}

/// Whether a device of a server is selected.
fn server_device_fits(device: &ServerDevice, selection: &Selection) -> (fits: bool)
    ensures
        fits == server_fits(device@, selection@),
{
    let by_serial = match &selection.serial {
        Some(serial) => same_text(&device.identifier, serial),
        None => true,
    };
    let by_transport = match selection.transport_id {
        Some(id) => device.transport_id as u64 == id,
        None => true,
    };
    by_serial && by_transport
}

/// Counts the devices of a server that are selected.
fn count_server_devices(server: &ServerInfo, selection: &Selection) -> (count: usize)
    ensures
        count == server_count(server@.devices, selection@),
{
    let ghost all = server@.devices;
    let mut count: usize = 0;
    let mut i: usize = 0;
    assert(all.take(0) =~= seq![]);
    while i < server.devices.len()
        invariant
            i <= server.devices@.len(),
            all == server@.devices,
            count <= i,
            count == server_count(all.take(i as int), selection@),
        decreases server.devices@.len() - i,
    {
        proof {
            assert(all.take(i + 1).drop_last() =~= all.take(i as int));
            assert(all.take(i + 1).last() == server.devices@[i as int]@);
        }
        if server_device_fits(&server.devices[i], selection) {
            count = count + 1;
        }
        i = i + 1;
    }
    assert(all.take(server.devices@.len() as int) =~= all);
    count
}

/// Writes the lines that tell of the devices of a server.
fn server_lines(server: &ServerInfo, long: bool) -> (lines: Vec<String>)
    ensures
        texts(lines@) == server@.devices.map_values(
            |device: ServerFacts| server_line(device, long),
        ),
{
    let ghost told = server@.devices.map_values(|device: ServerFacts| server_line(device, long));
    let mut lines: Vec<String> = Vec::new();
    let mut i: usize = 0;
    while i < server.devices.len()
        invariant
            i <= server.devices@.len(),
            told == server@.devices.map_values(
                |device: ServerFacts| server_line(device, long),
            ),
            texts(lines@) =~= told.take(i as int),
        decreases server.devices@.len() - i,
    {
        let ghost before = texts(lines@);
        let device = &server.devices[i];
        let line: String = if long {
            plus(copy_text(&device.description), " mab_transport:server")
        } else {
            plus(plus(copy_text(&device.identifier), "\t"), &device.state)
        };
        let ghost text = line@;
        lines.push(line);
        proof {
            assert(server@.devices[i as int] == server.devices@[i as int]@);
            assert(told[i as int] == text);
            assert(texts(lines@) =~= before.push(text));
        }
        i = i + 1;
    }
    assert(told.take(server.devices@.len() as int) =~= told);
    lines
}

/// Lists the identifiers of the devices of a server.
fn server_identifiers(server: &ServerInfo) -> (identifiers: Vec<String>)
    ensures
        texts(identifiers@) == server@.devices.map_values(
            |device: ServerFacts| device.identifier,
        ),
{
    let ghost told = server@.devices.map_values(|device: ServerFacts| device.identifier);
    let mut identifiers: Vec<String> = Vec::new();
    let mut i: usize = 0;
    while i < server.devices.len()
        invariant
            i <= server.devices@.len(),
            told == server@.devices.map_values(|device: ServerFacts| device.identifier),
            texts(identifiers@) =~= told.take(i as int),
        decreases server.devices@.len() - i,
    {
        let ghost before = texts(identifiers@);
        let text: String = copy_text(&server.devices[i].identifier);
        let ghost word = text@;
        identifiers.push(text);
        proof {
            assert(server@.devices[i as int] == server.devices@[i as int]@);
            assert(told[i as int] == word);
            assert(texts(identifiers@) =~= before.push(word));
        }
        i = i + 1;
    }
    assert(told.take(server.devices@.len() as int) =~= told);
    identifiers
}

/// Whether a device on the bus is selected by its identifiers and its transport.
fn usb_device_fits(device: &ADBDeviceInfo, selection: &Selection) -> (fits: bool)
    ensures
        fits == usb_fits(device@, selection@),
{
    match selection.endpoint {
        Some(endpoint) => {
            if device.vendor_id != endpoint.vendor || device.product_id != endpoint.product {
                return false;
            }
            match (endpoint.location, device.location_id) {
                (None, _) => {},
                (Some(wanted), Some(location)) => {
                    if wanted != location {
                        return false;
                    }
                },
                (Some(_), None) => return false,
            }
        },
        None => {},
    }
    match selection.transport_id {
        Some(id) => usb_transport_id(device) == id,
        None => true,
    }
}

/// Whether what a device says of itself begins with a serial number.
fn details_tell(details: &Option<String>, serial: &Option<String>) -> (tell: bool)
    requires
        serial is Some,
    ensures
        tell == tells_serial(optional_text(*details), optional_text(*serial)),
{
    match (details, serial) {
        (Some(text), Some(serial)) => {
            let chars: Vec<char> = chars_of(text);
            let list: Vec<String> = lines_of(&chars);
            assert(texts(list@).len() == list@.len());
            if list.len() == 0 {
                return false;
            }
            assert(texts(list@)[0] == list@[0]@);
            same_text(&list[0], serial)
        },
        _ => false,
    }
}

impl Routing {
    /// How far the search has come.
    pub closed spec fn view(&self) -> RouteState {
        RouteState {
            args: texts(self.args@),
            selection: self.selection@,
            devices: infos(self.devices@),
            index: self.index as int,
            matched: places(self.matched@),
            wait: route_wait_view(self.wait),
        }
    }

    /// The places of devices are inside the list.
    spec fn placed(&self) -> bool {
        &&& self.index <= self.devices@.len()
        &&& forall|i: int|
            0 <= i < self.matched@.len() ==> (#[trigger] self.matched@[i]) < self.devices@.len()
    }

    /// The places of devices are inside the list, and a device is asked for its
    /// serial number only where one is selected.
    pub closed spec fn wf(&self) -> bool {
        &&& self.placed()
        &&& self.wait is Serial ==> self.selection.serial is Some && self.index
            < self.devices@.len()
        &&& self.wait is ById ==> self.selection.transport_id is Some
    }

    /// Whether the command has a name.
    fn is(&self, name: &str) -> (result: bool)
        ensures
            result == named(self@.args, name@),
    {
        assert(self@.args.len() == self.args@.len());
        if self.args.len() == 0 {
            return false;
        }
        assert(self@.args[0] == self.args@[0]@);
        same_text(&self.args[0], name)
    }

    /// Whether the arguments are those of a list of devices.
    fn is_list(&self) -> (result: bool)
        ensures
            result == lists_devices(self@.args),
    {
        assert(self@.args.len() == self.args@.len());
        if self.args.len() == 2 {
            assert(self@.args[1] == self.args@[1]@);
            return same_text(&self.args[1], "-l");
        }
        self.args.len() == 1
    }

    /// Ends the search with a plan.
    fn plan(&mut self, plan: Plan<String, Vec<String>, Endpoint, ADBDeviceInfo>) -> (action:
        RouteAsk)
        requires
            old(self).placed(),
        ensures
            final(self).wf(),
            (final(self)@, route_action_view(action)) == route_ends(
                old(self)@,
                Ok(plan_view(plan)),
            ),
    {
        self.wait = RouteWait::Ended;
        RouteAction::Finish(Ok(plan))
    }

    /// Ends the search with an error.
    fn refuse(&mut self, error: &str) -> (action: RouteAsk)
        requires
            old(self).placed(),
        ensures
            final(self).wf(),
            (final(self)@, route_action_view(action)) == route_ends(old(self)@, Err(error@)),
    {
        self.wait = RouteWait::Ended;
        RouteAction::Finish(Err(copy_text(error)))
    }

    /// Begins the search for the device that a command is for.
    pub fn begin(args: Vec<String>, selection: Selection) -> (begun: (Routing, RouteAsk))
        ensures
            begun.0.wf(),
            (begun.0@, route_action_view(begun.1)) == route_begin(texts(args@), selection@),
    {
        let served = selection.endpoint.is_some();
        let mut routing = Routing {
            args,
            selection,
            devices: Vec::new(),
            index: 0,
            matched: Vec::new(),
            wait: RouteWait::Server,
        };
        assert(routing@.devices =~= seq![]);
        assert(routing@.matched =~= seq![]);
        if served {
            let action: RouteAsk = routing.serve(None);
            (routing, action)
        } else {
            (routing, RouteAction::AskServer)
        }
    }

    /// Goes on without a server.
    fn local(&mut self) -> (action: RouteAsk)
        requires
            old(self).wf(),
        ensures
            final(self).wf(),
            (final(self)@, route_action_view(action)) == route_local(old(self)@),
    {
        if self.selection.endpoint.is_none() {
            if let Some(serial) = &self.selection.serial {
                let text: String = copy_text(serial);
                self.wait = RouteWait::Address;
                return RouteAction::AskAddress(text);
            }
        }
        self.by_id()
    }

    /// Goes on where the serial number is no address.
    fn by_id(&mut self) -> (action: RouteAsk)
        requires
            old(self).wf(),
        ensures
            final(self).wf(),
            (final(self)@, route_action_view(action)) == route_by_id(old(self)@),
    {
        if self.selection.endpoint.is_none() && self.selection.transport_id.is_some() {
            self.wait = RouteWait::ById;
            return RouteAction::AskSaved;
        }
        self.wait = RouteWait::Usb;
        RouteAction::AskUsb
    }

    /// Goes on once it is known whether there is a server.
    fn serve(&mut self, server: Option<ServerInfo>) -> (action: RouteAsk)
        requires
            old(self).wf(),
        ensures
            final(self).wf(),
            (final(self)@, route_action_view(action)) == route_served(
                old(self)@,
                match server {
                    Some(server) => Some(server@),
                    None => None,
                },
            ),
    {
        let count: usize = self.args.len();
        assert(self@.args.len() == count);
        if self.is("server-status") {
            if count != 1 {
                return self.refuse("server-status does not accept arguments");
            }
            return match server {
                None => self.refuse("no compatible ADB server is running"),
                Some(server) => self.plan(
                    Plan::Print(plus(copy_text("ADB server available at "), &server.address)),
                ),
            };
        }
        let server: ServerInfo = match server {
            Some(server) => server,
            None => return self.local(),
        };
        assert(server@.devices.len() == server.devices@.len());
        if self.is("devices") {
            if !self.is_list() {
                return self.refuse("usage: adb devices [-l]");
            }
            let lines: Vec<String> = server_lines(&server, count == 2);
            let identifiers: Vec<String> = server_identifiers(&server);
            return self.plan(Plan::ServerDevices { lines, identifiers });
        }
        if self.is("start-server") && count == 1 {
            return self.plan(Plan::Nothing);
        }
        if self.is("wait-for-device") && count == 1 && server.devices.len() > 0 {
            return self.plan(Plan::Nothing);
        }
        let selected = self.selection.serial.is_some() || self.selection.transport_id.is_some();
        let unique = if selected {
            count_server_devices(&server, &self.selection) == 1
        } else {
            server.devices.len() == 1
        };
        if unique {
            return self.plan(Plan::Server);
        }
        if server.devices.len() > 0 && !selected && !self.is("start-server") && !self.is(
            "wait-for-device",
        ) {
            return self.refuse(
                "multiple devices connected through ADB server; select one with -s or -t",
            );
        }
        self.local()
    }

    /// Looks at the devices on the bus from the current one on.
    #[verifier::loop_isolation(false)]
    fn search(&mut self) -> (action: RouteAsk)
        requires
            old(self).placed(),
        ensures
            final(self).wf(),
            (final(self)@, route_action_view(action)) == route_matching(old(self)@),
    {
        let ghost start = self@;
        while self.index < self.devices.len()
            invariant
                self.placed(),
                start == old(self)@,
                route_matching(start) == route_matching(self@),
            decreases self.devices@.len() - self.index,
        {
            let ghost before = self@;
            assert(self@.devices[self.index as int] == self.devices@[self.index as int]@);
            let fits = usb_device_fits(&self.devices[self.index], &self.selection);
            if fits {
                let known = match (&self.selection.serial, &self.devices[self.index].serial) {
                    (None, _) => true,
                    (Some(wanted), Some(serial)) => same_text(wanted, serial),
                    (Some(_), None) => false,
                };
                if !known {
                    let index: usize = self.index;
                    self.wait = RouteWait::Serial;
                    return RouteAction::AskSerial(index);
                }
                self.matched.push(self.index);
                assert(places(self.matched@) =~= before.matched.push(self.index as int));
            }
            self.index = self.index + 1;
        }
        assert(self@.matched.len() == self.matched@.len());
        if self.matched.len() == 1 {
            assert(self@.matched[0] == self.matched@[0]);
            let place: usize = self.matched[0];
            assert(self@.devices[place as int] == self.devices@[place as int]@);
            let device: ADBDeviceInfo = self.devices[place].copy();
            return self.plan(Plan::Usb(device));
        }
        if self.matched.len() == 0 {
            return self.refuse("selected Android USB device is not connected");
        }
        self.refuse("multiple matching Android USB devices; select a unique device")
    }

    /// Goes on once the devices on the bus are known.
    fn found(&mut self) -> (action: RouteAsk)
        requires
            old(self).wf(),
        ensures
            final(self).wf(),
            (final(self)@, route_action_view(action)) == route_found(old(self)@),
    {
        let count: usize = self.args.len();
        assert(self@.args.len() == count);
        if self.is("start-server") {
            return self.plan(Plan::Nothing);
        }
        if self.is("wait-for-device") {
            if count != 1 {
                return self.refuse("wait-for-device does not accept arguments");
            }
            return self.plan(Plan::WaitForDevice);
        }
        if self.is("track-devices") {
            if count != 1 {
                return self.refuse("track-devices does not accept arguments");
            }
            return self.plan(Plan::TrackDevices);
        }
        if self.is("devices") {
            if !self.is_list() {
                return self.refuse("usage: adb devices [-l]");
            }
            return self.plan(Plan::Devices);
        }
        if self.is("features") {
            return self.plan(Plan::Print(copy_text("shell_v2,cmd,sendrecv_v2")));
        }
        self.search()
    }

    /// Goes on once something is known.
    pub fn on_event(self, event: RouteNews) -> (next: (Routing, RouteAsk))
        requires
            self.wf(),
            route_fits(self@.wait, event),
            event matches RouteEvent::Saved(set) ==> set.wf(),
        ensures
            next.0.wf(),
            (next.0@, route_action_view(next.1)) == route_next(self@, route_event_view(event)),
    {
        let mut routing = self;
        let wait: RouteWait<Endpoint> = routing.wait;
        routing.wait = RouteWait::Ended;
        let action: RouteAsk = match (wait, event) {
            (RouteWait::Server, RouteEvent::Server(server)) => {
                routing.wait = RouteWait::Server;
                routing.serve(server)
            },
            (RouteWait::Address, RouteEvent::Address(Some(endpoint))) => {
                routing.wait = RouteWait::BySerial(endpoint);
                RouteAction::AskSaved
            },
            (RouteWait::Address, RouteEvent::Address(None)) => {
                routing.wait = RouteWait::Address;
                routing.by_id()
            },
            (RouteWait::BySerial(endpoint), RouteEvent::Saved(saved)) => {
                if saved.contains(&endpoint.key) {
                    routing.plan(Plan::Wireless(endpoint))
                } else {
                    routing.refuse(
                        "selected wireless Android device is not connected; run adb connect HOST:PORT first",
                    )
                }
            },
            (RouteWait::ById, RouteEvent::Saved(saved)) => {
                let id: u64 = match routing.selection.transport_id {
                    Some(id) => id,
                    None => 0,
                };
                match saved.find_transport(id) {
                    Some(endpoint) => routing.plan(Plan::Wireless(endpoint)),
                    None => {
                        routing.wait = RouteWait::Usb;
                        RouteAction::AskUsb
                    },
                }
            },
            (RouteWait::Usb, RouteEvent::Usb(devices)) => {
                routing.wait = RouteWait::Usb;
                routing.devices = devices;
                routing.index = 0;
                routing.matched = Vec::new();
                assert(routing@.matched =~= seq![]);
                routing.found()
            },
            (RouteWait::Serial, RouteEvent::Details(details)) => {
                let ghost before = routing@;
                let total: usize = routing.devices.len();
                assert(routing.index < total);
                if details_tell(&details, &routing.selection.serial) {
                    routing.matched.push(routing.index);
                    assert(places(routing.matched@) =~= before.matched.push(before.index));
                }
                routing.index = routing.index + 1;
                routing.wait = RouteWait::Serial;
                routing.search()
            },
            _ => RouteAction::Finish(Ok(Plan::Nothing)),
        };
        (routing, action)
    }

    /// The devices on the bus that the search looks at.
    pub fn devices(&self) -> (devices: &[ADBDeviceInfo])
        ensures
            infos(devices@) == self@.devices,
    {
        self.devices.as_slice()
    }

    /// The command and its arguments.
    pub fn args(&self) -> (args: &[String])
        ensures
            texts(args@) == self@.args,
    {
        self.args.as_slice()
    }

    /// What was selected.
    pub fn selection(&self) -> (selection: &Selection)
        ensures
            selection@ == self@.selection,
    {
        &self.selection
    }
}

/// A search ends with a device on the bus only where it is one of those that were
/// listed, and the only one that fits; another is never taken in its place.
pub proof fn only_a_unique_device_is_used(state: RouteState, device: DeviceFacts)
    requires
        0 <= state.index <= state.devices.len(),
        forall|i: int|
            0 <= i < state.matched.len() ==> 0 <= (#[trigger] state.matched[i]) < state.index
                && usb_fits(state.devices[state.matched[i]], state.selection),
        route_matching(state).1 == RouteAction::<Seq<char>, PlanView>::Finish(
            Ok(Plan::Usb(device)),
        ),
    ensures
        usb_fits(device, state.selection),
        exists|i: int| 0 <= i < state.devices.len() && state.devices[i] == device,
        state.matched.len() <= 1,
        state.matched.len() == 1 ==> device == state.devices[state.matched[0]],
    decreases state.devices.len() - state.index,
{
    if state.index >= state.devices.len() {
        assert(state.devices[state.matched[0]] == device);
    } else {
        let found = state.devices[state.index];
        if !usb_fits(found, state.selection) {
            only_a_unique_device_is_used(
                RouteState { index: state.index + 1, ..state },
                device,
            );
        } else if state.selection.serial is None || found.serial == state.selection.serial {
            let next = RouteState {
                index: state.index + 1,
                matched: state.matched.push(state.index),
                ..state
            };
            only_a_unique_device_is_used(next, device);
        }
    }
}

/// A command goes to a device over TCP only where its address was saved.
pub proof fn only_saved_addresses_are_used(state: RouteState, saved: Seq<Peer>, address: Peer)
    requires
        route_next(state, RouteEvent::Saved(saved)).1 == RouteAction::<Seq<char>, PlanView>::Finish(
            Ok(Plan::Wireless(address)),
        ),
    ensures
        has_key(saved, address.0),
{
    if state.wait is ById {
        lemma_first_transport(saved, state.selection.transport_id->0);
    }
}

/// An address that is found by its transport is in the list.
proof fn lemma_first_transport(saved: Seq<Peer>, id: u64)
    ensures
        first_transport(saved, id) matches Some(address) ==> has_key(saved, address.0),
    decreases saved.len(),
{
    if saved.len() > 0 {
        if transport_id("tcp"@, saved[0].1) == id {
            let (key, _) = saved[0];
            assert(saved[0].0 == key);
        } else {
            let rest = saved.drop_first();
            lemma_first_transport(rest, id);
            if let Some(address) = first_transport(rest, id) {
                let i = choose|i: int| 0 <= i < rest.len() && (#[trigger] rest[i]).0 == address.0;
                assert(saved[i + 1].0 == address.0);
            }
        }
    }
}

/// A command whose command line names a device on the bus is never sent to a
/// server or over TCP.
pub proof fn named_devices_stay_on_the_bus(args: Seq<Seq<char>>, selection: Selected)
    requires
        selection.endpoint is Some,
        !named(args, "server-status"@),
    ensures
        route_begin(args, selection).1 is AskUsb,
{
}

/// The setting that says where devices are sought.
pub proof fn modes_are_named(name: Seq<char>)
    ensures
        mode_asked(None) == Ok::<ServerMode, Seq<char>>(ServerMode::Auto),
        mode_asked(Some("auto"@)) == Ok::<ServerMode, Seq<char>>(ServerMode::Auto),
        mode_asked(Some("direct"@)) == Ok::<ServerMode, Seq<char>>(ServerMode::Direct),
        mode_asked(Some("server"@)) == Ok::<ServerMode, Seq<char>>(ServerMode::Server),
        mode_asked(Some(name)) is Ok <==> name == "auto"@ || name == "direct"@ || name
            == "server"@,
{
    reveal_strlit("auto");
    reveal_strlit("direct");
    reveal_strlit("server");
    assert("auto"@.len() == 4 && "direct"@.len() == 6 && "server"@.len() == 6);
    assert("direct"@[0] == 'd' && "server"@[0] == 's');
}

/// The places of the devices, from one on, that fit.
pub open spec fn fitting(devices: Seq<DeviceFacts>, selection: Selected, from: int) -> Seq<int>
    decreases devices.len() - from,
{
    if from >= devices.len() {
        seq![]
    } else if usb_fits(devices[from], selection) {
        seq![from] + fitting(devices, selection, from + 1)
    } else {
        fitting(devices, selection, from + 1)
    }
}

/// Without a serial number, a search ends with the places that fit.
proof fn lemma_matching(state: RouteState)
    requires
        state.selection.serial is None,
        0 <= state.index <= state.devices.len(),
    ensures
        ({
            let all = state.matched + fitting(state.devices, state.selection, state.index);
            let action = route_matching(state).1;
            &&& all.len() == 1 ==> action == RouteAction::<Seq<char>, PlanView>::Finish(
                Ok(Plan::Usb(state.devices[all[0]])),
            )
            &&& all.len() == 0 ==> action == RouteAction::<Seq<char>, PlanView>::Finish(
                Err("selected Android USB device is not connected"@),
            )
            &&& all.len() > 1 ==> action == RouteAction::<Seq<char>, PlanView>::Finish(
                Err("multiple matching Android USB devices; select a unique device"@),
            )
        }),
    decreases state.devices.len() - state.index,
{
    let rest = fitting(state.devices, state.selection, state.index);
    let all = state.matched + rest;
    if state.index >= state.devices.len() {
        assert(all =~= state.matched);
    } else {
        let next = if usb_fits(state.devices[state.index], state.selection) {
            RouteState {
                index: state.index + 1,
                matched: state.matched.push(state.index),
                ..state
            }
        } else {
            RouteState { index: state.index + 1, ..state }
        };
        lemma_matching(next);
        assert(next.matched + fitting(next.devices, next.selection, next.index) =~= all);
    }
}

/// What the places that fit are.
proof fn lemma_fitting(devices: Seq<DeviceFacts>, selection: Selected, from: int)
    requires
        0 <= from <= devices.len(),
    ensures
        ({
            let list = fitting(devices, selection, from);
            &&& forall|i: int|
                from <= i < devices.len() && usb_fits(devices[i], selection) ==> #[trigger]
                    list.contains(i)
            &&& forall|i: int|
                0 <= i < list.len() ==> from <= #[trigger] list[i] < devices.len() && usb_fits(
                    devices[list[i]],
                    selection,
                )
            &&& forall|i: int, j: int| 0 <= i < j < list.len() ==> list[i] < list[j]
        }),
    decreases devices.len() - from,
{
    if from < devices.len() {
        lemma_fitting(devices, selection, from + 1);
        let rest = fitting(devices, selection, from + 1);
        let list = fitting(devices, selection, from);
        if usb_fits(devices[from], selection) {
            assert(list[0] == from);
            assert forall|i: int|
                from <= i < devices.len() && usb_fits(devices[i], selection) implies #[trigger]
            list.contains(i) by {
                if i > from {
                    assert(rest.contains(i));
                    let k = choose|k: int| 0 <= k < rest.len() && rest[k] == i;
                    assert(list[k + 1] == i);
                }
            }
        }
    }
}

/// A command without a serial number goes to the device on the bus that fits where exactly
/// one does. Where none does, or two do, it is refused.
pub proof fn a_command_goes_to_the_only_device_that_fits(state: RouteState, one: int, other: int)
    requires
        state.selection.serial is None,
        state.index == 0,
        state.matched.len() == 0,
    ensures
        ({
            let action = route_matching(state).1;
            let fits = |i: int| 0 <= i < state.devices.len() && usb_fits(
                state.devices[i],
                state.selection,
            );
            &&& fits(one) && (forall|i: int| i != one ==> !#[trigger] fits(i)) ==> action
                == RouteAction::<Seq<char>, PlanView>::Finish(
                Ok(Plan::Usb(state.devices[one])),
            )
            &&& (forall|i: int| !#[trigger] fits(i)) ==> action == RouteAction::<
                Seq<char>,
                PlanView,
            >::Finish(Err("selected Android USB device is not connected"@))
            &&& fits(one) && fits(other) && one != other ==> action == RouteAction::<
                Seq<char>,
                PlanView,
            >::Finish(Err("multiple matching Android USB devices; select a unique device"@))
        }),
{
    lemma_matching(state);
    lemma_fitting(state.devices, state.selection, 0);
    let list = fitting(state.devices, state.selection, 0);
    let all = state.matched + list;
    assert(all =~= list);
    let fits = |i: int| 0 <= i < state.devices.len() && usb_fits(
        state.devices[i],
        state.selection,
    );
    if forall|i: int| !#[trigger] fits(i) {
        if list.len() > 0 {
            assert(fits(list[0]));
        }
    }
    if fits(one) {
        assert(list.contains(one));
        if forall|i: int| i != one ==> !#[trigger] fits(i) {
            if list.len() > 1 {
                assert(fits(list[0]));
                assert(fits(list[1]));
                assert(list[0] < list[1]);
            }
        }
        if fits(other) && one != other {
            assert(list.contains(other));
            let i = choose|i: int| 0 <= i < list.len() && list[i] == one;
            let j = choose|j: int| 0 <= j < list.len() && list[j] == other;
            assert(i != j);
        }
    }
}

/// A device on the bus fits where its identifiers are those that were described, its place
/// is, if one was given, and the number of its transport is, if one was.
pub proof fn devices_fit_their_description(device: DeviceFacts, selection: Selected)
    ensures
        usb_fits(device, selection) <==> {
            &&& selection.endpoint matches Some(endpoint) ==> device.vendor_id == endpoint.vendor
                && device.product_id == endpoint.product && (endpoint.location is None
                || device.location_id == endpoint.location)
            &&& selection.transport_id matches Some(id) ==> usb_transport(device) == id
        },
{
}

/// A device with the serial number that was asked for counts; of another that fits, the
/// serial number is asked, and it counts exactly where the first line of what it tells is
/// that number.
pub proof fn serial_numbers_are_asked(state: RouteState, details: Option<Seq<char>>)
    requires
        state.selection.serial is Some,
        0 <= state.index < state.devices.len(),
        usb_fits(state.devices[state.index], state.selection),
    ensures
        ({
            let serial = state.selection.serial->0;
            let counted = RouteState {
                index: state.index + 1,
                matched: state.matched.push(state.index),
                ..state
            };
            let known = state.devices[state.index].serial == Some(serial);
            let (asked, action) = route_matching(state);
            &&& known ==> (asked, action) == route_matching(counted)
            &&& !known ==> action == RouteAction::<Seq<char>, PlanView>::AskSerial(
                state.index as usize,
            ) && asked.wait is Serial && asked.index == state.index && asked.matched
                == state.matched
            &&& state.wait is Serial ==> {
                let told = details is Some && lines(details->0).len() > 0 && lines(details->0)[0]
                    == serial;
                route_next(state, RouteEvent::Details(details)) == if told {
                    route_matching(counted)
                } else {
                    route_matching(RouteState { index: state.index + 1, ..state })
                }
            }
        }),
{
}

/// A device that does not fit is passed over.
pub proof fn other_devices_are_passed_over(state: RouteState)
    requires
        0 <= state.index < state.devices.len(),
        !usb_fits(state.devices[state.index], state.selection),
    ensures
        route_matching(state) == route_matching(RouteState { index: state.index + 1, ..state }),
{
}

/// How many devices of a server fit.
proof fn lemma_server_count(devices: Seq<ServerFacts>, selection: Selected)
    ensures
        server_count(devices, selection) == devices.filter(
            |device: ServerFacts| server_fits(device, selection),
        ).len(),
    decreases devices.len(),
{
    reveal(Seq::filter);
    if devices.len() > 0 {
        lemma_server_count(devices.drop_last(), selection);
    }
}

/// A command goes to a server where that has exactly one device that is meant: the only one
/// it has, or the only one with the serial number and the transport that were given. Where
/// it has several and none is given, the command is refused; else the device is sought
/// elsewhere.
pub proof fn servers_are_used_for_a_unique_device(state: RouteState, told: ServerTold)
    requires
        state.wait is Server,
        !named(state.args, "server-status"@),
        !named(state.args, "devices"@),
        !named(state.args, "start-server"@),
        !named(state.args, "wait-for-device"@),
    ensures
        ({
            let serial = state.selection.serial;
            let id = state.selection.transport_id;
            let selected = serial is Some || id is Some;
            let meant = told.devices.filter(
                |device: ServerFacts| server_fits(device, state.selection),
            );
            let (next, action) = route_next(state, RouteEvent::Server(Some(told)));
            &&& selected && meant.len() == 1 || !selected && told.devices.len() == 1 ==> action
                == RouteAction::<Seq<char>, PlanView>::Finish(Ok(Plan::Server))
            &&& !selected && told.devices.len() > 1 ==> action is Finish && !(action
                == RouteAction::<Seq<char>, PlanView>::Finish(Ok(Plan::Server)))
            &&& selected && meant.len() != 1 || told.devices.len() == 0 ==> (next, action)
                == route_local(state)
            &&& forall|device: ServerFacts| #[trigger]
                server_fits(device, state.selection) <==> (serial is None || serial == Some(
                    device.identifier,
                )) && (id is None || id->0 == device.transport_id)
            &&& route_next(state, RouteEvent::Server(None)) == route_local(state)
        }),
{
    lemma_server_count(told.devices, state.selection);
}

/// The devices of a server are listed by what the server tells of them, each on a line.
pub proof fn devices_of_a_server_are_listed(state: RouteState, told: ServerTold)
    requires
        state.wait is Server,
        state.args == seq!["devices"@] || state.args == seq!["devices"@, "-l"@],
    ensures
        ({
            let action = route_next(state, RouteEvent::Server(Some(told))).1;
            &&& action matches RouteAction::Finish(Ok(Plan::ServerDevices { lines, identifiers }))
                && lines.len() == told.devices.len() && identifiers.len() == told.devices.len()
                && forall|i: int|
                0 <= i < told.devices.len() ==> {
                    let device = #[trigger] told.devices[i];
                    &&& identifiers[i] == device.identifier
                    &&& lines[i] == if state.args.len() == 2 {
                        device.description + " mab_transport:server"@
                    } else {
                        device.identifier + "\t"@ + device.state
                    }
                }
        }),
{
    reveal_strlit("server-status");
    reveal_strlit("devices");
    reveal_strlit("-l");
    assert("server-status"@.len() == 13 && "devices"@.len() == 7);
    assert(state.args[0] == "devices"@);
    if state.args.len() == 2 {
        assert(state.args[1] == "-l"@);
    }
}

/// Where no server has the device, a serial number is first taken for an address, then the
/// number of a transport for that of a saved address, and then the bus is searched. An
/// address is used only where it was saved.
pub proof fn devices_are_sought_step_by_step(
    state: RouteState,
    address: Peer,
    saved: Seq<Peer>,
    devices: Seq<DeviceFacts>,
)
    requires
        state.selection.endpoint is None,
    ensures
        state.selection.serial matches Some(serial) ==> route_local(state).1
            == RouteAction::<Seq<char>, PlanView>::AskAddress(serial) && route_local(state).0.wait
            is Address,
        state.selection.serial is None && state.selection.transport_id is Some ==> route_local(
            state,
        ).1 is AskSaved && route_local(state).0.wait is ById,
        state.selection.serial is None && state.selection.transport_id is None ==> route_local(
            state,
        ).1 is AskUsb && route_local(state).0.wait is Usb,
        state.wait is Address ==> {
            let (next, action) = route_next(state, RouteEvent::Address(Some(address)));
            &&& action is AskSaved
            &&& next.wait == RouteWait::BySerial(address)
            &&& route_next(next, RouteEvent::Saved(saved)).1 == (if has_key(saved, address.0) {
                RouteAction::<Seq<char>, PlanView>::Finish(Ok(Plan::Wireless(address)))
            } else {
                RouteAction::Finish(
                    Err(
                        "selected wireless Android device is not connected; run adb connect HOST:PORT first"@,
                    ),
                )
            })
        },
        state.wait is Address && state.selection.transport_id is None ==> route_next(
            state,
            RouteEvent::Address(None),
        ).1 is AskUsb,
        state.wait is ById && state.selection.transport_id is Some ==> match first_transport(
            saved,
            state.selection.transport_id->0,
        ) {
            Some(found) => route_next(state, RouteEvent::Saved(saved)).1 == RouteAction::<
                Seq<char>,
                PlanView,
            >::Finish(Ok(Plan::Wireless(found))),
            None => route_next(state, RouteEvent::Saved(saved)).1 is AskUsb,
        },
{
}

/// The commands about devices as such need none; any other is for a device on the bus, and
/// the search begins with the first that was listed.
pub proof fn commands_about_devices_need_none(state: RouteState, devices: Seq<DeviceFacts>)
    requires
        state.wait is Usb,
        state.args.len() > 0,
    ensures
        ({
            let action = route_next(state, RouteEvent::Usb(devices)).1;
            let name = state.args[0];
            let alone = state.args.len() == 1;
            &&& name == "start-server"@ ==> action == RouteAction::<Seq<char>, PlanView>::Finish(
                Ok(Plan::Nothing),
            )
            &&& name == "wait-for-device"@ && alone ==> action == RouteAction::<
                Seq<char>,
                PlanView,
            >::Finish(Ok(Plan::WaitForDevice))
            &&& name == "track-devices"@ && alone ==> action == RouteAction::<
                Seq<char>,
                PlanView,
            >::Finish(Ok(Plan::TrackDevices))
            &&& name == "devices"@ && (alone || state.args == seq![name, "-l"@]) ==> action
                == RouteAction::<Seq<char>, PlanView>::Finish(Ok(Plan::Devices))
            &&& name == "features"@ ==> action == RouteAction::<Seq<char>, PlanView>::Finish(
                Ok(Plan::Print("shell_v2,cmd,sendrecv_v2"@)),
            )
            &&& name != "start-server"@ && name != "wait-for-device"@ && name != "track-devices"@
                && name != "devices"@ && name != "features"@ ==> route_next(
                state,
                RouteEvent::Usb(devices),
            ) == route_matching(RouteState { devices, index: 0, matched: seq![], ..state })
        }),
{
    reveal_strlit("server-status");
    reveal_strlit("devices");
    reveal_strlit("start-server");
    reveal_strlit("wait-for-device");
    reveal_strlit("track-devices");
    reveal_strlit("features");
    reveal_strlit("-l");
    assert("start-server"@.len() == 12 && "wait-for-device"@.len() == 15);
    assert("track-devices"@.len() == 13 && "devices"@.len() == 7 && "features"@.len() == 8);
    if state.args == seq![state.args[0], "-l"@] {
        assert(state.args[1] == "-l"@);
    }
}

/// A mode that has no name is refused by what was given.
pub proof fn other_modes_are_refused(name: Seq<char>)
    requires
        name != "direct"@,
        name != "auto"@,
        name != "server"@,
    ensures
        mode_asked(Some(name)) == Err::<ServerMode, Seq<char>>(
            "invalid MACANDROIDBRIDGE_ADB_MODE: "@ + name,
        ),
{
}

/// A server is told of by its address; where there is none, or where the question has
/// more words, it is refused.
pub proof fn servers_are_told_of(state: RouteState, told: ServerTold)
    requires
        state.wait is Server,
        state.args.len() > 0,
        state.args[0] == "server-status"@,
    ensures
        ({
            let with = route_next(state, RouteEvent::Server(Some(told))).1;
            let without = route_next(state, RouteEvent::Server(None)).1;
            let alone = state.args.len() == 1;
            &&& alone ==> with == RouteAction::<Seq<char>, PlanView>::Finish(
                Ok(Plan::Print("ADB server available at "@ + told.address)),
            )
            &&& alone ==> without == RouteAction::<Seq<char>, PlanView>::Finish(
                Err("no compatible ADB server is running"@),
            )
            &&& !alone ==> with == without && with == RouteAction::<Seq<char>, PlanView>::Finish(
                Err("server-status does not accept arguments"@),
            )
        }),
{
}

/// A command that a server has several devices for is refused until one is selected.
pub proof fn one_of_several_devices_must_be_selected(state: RouteState, told: ServerTold)
    requires
        state.wait is Server,
        state.args.len() > 0,
        state.args[0] != "server-status"@,
        state.args[0] != "devices"@,
        state.args[0] != "start-server"@,
        state.args[0] != "wait-for-device"@,
        state.selection.serial is None,
        state.selection.transport_id is None,
        told.devices.len() > 1,
    ensures
        route_next(state, RouteEvent::Server(Some(told))).1 == RouteAction::<
            Seq<char>,
            PlanView,
        >::Finish(
            Err("multiple devices connected through ADB server; select one with -s or -t"@),
        ),
{
}

/// The commands about devices take no further words.
pub proof fn commands_about_devices_take_no_words(state: RouteState, devices: Seq<DeviceFacts>)
    requires
        state.wait is Usb,
        state.args.len() > 1,
    ensures
        ({
            let action = route_next(state, RouteEvent::Usb(devices)).1;
            let name = state.args[0];
            &&& name == "wait-for-device"@ ==> action == RouteAction::<Seq<char>, PlanView>::Finish(
                Err("wait-for-device does not accept arguments"@),
            )
            &&& name == "track-devices"@ ==> action == RouteAction::<Seq<char>, PlanView>::Finish(
                Err("track-devices does not accept arguments"@),
            )
            &&& name == "devices"@ && state.args[1] != "-l"@ ==> action == RouteAction::<
                Seq<char>,
                PlanView,
            >::Finish(Err("usage: adb devices [-l]"@))
        }),
{
    reveal_strlit("start-server");
    reveal_strlit("wait-for-device");
    reveal_strlit("track-devices");
    reveal_strlit("devices");
    assert("start-server"@.len() == 12);
    assert("wait-for-device"@.len() == 15);
    assert("track-devices"@.len() == 13);
    assert("devices"@.len() == 7);
}

} // verus!
