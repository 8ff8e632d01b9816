//! Errors of the client.

use crate::text::append;
use vstd::prelude::*;

verus! {

/// What can go wrong between the client and a device.
#[derive(Debug)]
pub enum RustADBError<T> {
    /// A request was refused, or the peer broke the protocol.
    ADBRequestFailed(T),
    /// No device, or more than one, fits the request.
    DeviceNotFound(T),
    /// No USB device has these vendor and product identifiers.
    USBDeviceNotFound(u16, u16),
    /// The USB device has no ADB interface.
    USBNoDescriptorFound,
    /// A packet has this checksum in place of the announced one.
    InvalidIntegrity(u32, u32),
    /// The peer sent the second in place of the first.
    WrongResponseReceived(T, T),
    /// A read or write did not finish in time.
    TimedOut(T),
    /// The transport is not open.
    NotConnected(T),
    /// The transport ended inside a packet.
    UnexpectedEof(T),
    /// Bytes are not valid text, for this reason.
    InvalidText(T),
    /// A number does not fit its field.
    NumberOverflow,
}

/// A result of the client.
pub type AdbResult<T> = Result<T, RustADBError<String>>;

impl RustADBError<String> {
    /// The error with the texts that it carries.
    pub open spec fn view(&self) -> RustADBError<Seq<char>> {
        match self {
            RustADBError::ADBRequestFailed(text) => RustADBError::ADBRequestFailed(text@),
            RustADBError::DeviceNotFound(text) => RustADBError::DeviceNotFound(text@),
            RustADBError::USBDeviceNotFound(vendor, product) => RustADBError::USBDeviceNotFound(
                *vendor,
                *product,
            ),
            RustADBError::USBNoDescriptorFound => RustADBError::USBNoDescriptorFound,
            RustADBError::InvalidIntegrity(actual, announced) => RustADBError::InvalidIntegrity(
                *actual,
                *announced,
            ),
            RustADBError::WrongResponseReceived(
                expected,
                actual,
            ) => RustADBError::WrongResponseReceived(expected@, actual@),
            RustADBError::TimedOut(text) => RustADBError::TimedOut(text@),
            RustADBError::NotConnected(text) => RustADBError::NotConnected(text@),
            RustADBError::UnexpectedEof(text) => RustADBError::UnexpectedEof(text@),
            RustADBError::InvalidText(text) => RustADBError::InvalidText(text@),
            RustADBError::NumberOverflow => RustADBError::NumberOverflow,
        }
    }

    /// Whether nothing came in time: such a read is made again.
    pub fn timed_out(&self) -> (timed_out: bool)
        ensures
            timed_out == (*self is TimedOut),
    {
        match self {
            RustADBError::TimedOut(_) => true,
            _ => false,
        }
    }
}

/// Whether a call failed with a request failure of the given text.
pub open spec fn failed<T>(result: AdbResult<T>, message: Seq<char>) -> bool {
    result is Err && result->Err_0@ == RustADBError::ADBRequestFailed(message)
}

/// A request failure.
pub fn failure(message: &str) -> (error: RustADBError<String>)
    ensures
        error@ == RustADBError::ADBRequestFailed(message@),
{
    let mut text = String::new();
    append(&mut text, message);
    assert(text@ =~= message@);
    RustADBError::ADBRequestFailed(text)
}

} // verus!
