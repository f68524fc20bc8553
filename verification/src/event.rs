//! The events of an EI connection and the requests that answer them, as plain values.
//!
//! Protocol objects are named by their object ids.

use vstd::prelude::*;

verus! {

/// An event of the connection itself.
#[derive(Debug, Clone)]
pub enum ConnectionEvent {
    /// A seat is announced.
    Seat,
    /// The server asks for a reply on the given object.
    Ping { ping: u64 },
    /// The server has disconnected the client.
    Disconnected,
    /// The client has used an object that the server does not know.
    InvalidObject,
    /// Any other event.
    Other,
}

/// An event of a seat.
#[derive(Debug, Clone)]
pub enum SeatEvent {
    /// The name of the seat.
    Name,
    /// The seat offers an interface under the given mask.
    Capability { mask: u64, interface: String },
    /// The seat is described.
    Done,
    /// A device is announced.
    Device { device: u64 },
    /// The seat is gone.
    Destroyed,
    /// Any other event.
    Other,
}

/// An event of a device.
#[derive(Debug, Clone)]
pub enum DeviceEvent {
    /// The name of the device.
    Name { name: String },
    /// The type of the device.
    DeviceType,
    /// The size of the device.
    Dimensions { width: u32, height: u32 },
    /// A region of the device.
    Region { offset_x: u32, offset_y: u32, width: u32, height: u32, scale_bits: u32 },
    /// The device has an interface, which is the given object.
    Interface { interface: String, object: u64 },
    /// The device is described.
    Done,
    /// The device may send events.
    Resumed,
    /// The device may not send events.
    Paused,
    /// The device is gone.
    Destroyed,
    /// Any other event.
    Other,
}

/// An event of a keyboard.
#[derive(Debug, Clone)]
pub enum KeyboardEvent {
    /// The keymap of the keyboard; `None` where it could not be read.
    Keymap { text: Option<Vec<u8>> },
    /// Any other event.
    Other,
}

/// An event of an EI connection.
#[derive(Debug, Clone)]
#[allow(inconsistent_fields)]
pub enum Event {
    Connection { event: ConnectionEvent },
    Seat { seat: u64, event: SeatEvent },
    Device { device: u64, event: DeviceEvent },
    Pingpong { pingpong: u64 },
    Handshake,
    Callback,
    Keyboard { event: KeyboardEvent },
    Other,
}

/// What comes next from an EI connection.
#[derive(Debug)]
pub enum PendingEvent {
    /// An event.
    Event { event: Event },
    /// A message that is no event, with the reason.
    ParseError { reason: String },
    /// A message for an object that does not exist.
    InvalidObject { id: u64 },
}

/// Why the events of an EI connection cannot be followed any further.
#[derive(Debug)]
pub enum EventError {
    /// A message is no event, for the given reason.
    ParseError { reason: String },
    /// A message is for an object that does not exist.
    InvalidObject { id: u64 },
}

/// Whether a key or a button goes down or up.
#[derive(Debug, Clone, Copy, PartialEq, Eq, Structural)]
pub enum KeyState {
    Press,
    Released,
}

/// A request on an EI connection.
#[derive(Debug, Clone, Copy, PartialEq, Eq, Structural)]
pub enum Request {
    /// Bind to the given capabilities of a seat.
    Bind { seat: u64, capabilities: u64 },
    /// Reply to a ping.
    PingDone { ping: u64, callback_data: u64 },
    /// Announce that a device is going to send events.
    StartEmulating { device: u64, last_serial: u32, sequence: u32 },
    /// Announce that a device is not going to send events any more.
    StopEmulating { device: u64, last_serial: u32 },
    /// Move an absolute pointer.
    MotionAbsolute { pointer: u64, x: i16, y: i16 },
    /// Move a relative pointer.
    MotionRelative { pointer: u64, x: i16, y: i16 },
    /// Press or release a button.
    Button { interface: u64, button: u32, state: KeyState },
    /// Scroll.
    Scroll { interface: u64, x: i16, y: i16 },
    /// Press or release a key.
    Key { interface: u64, key: u32, state: KeyState },
    /// End a group of events of a device, at the current time.
    Frame { device: u64, last_serial: u32 },
    /// Send what has been requested so far.
    Flush,
}

} // verus!
