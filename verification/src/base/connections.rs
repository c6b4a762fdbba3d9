//! Byte-stream transports to devices.
use vstd::prelude::*;

use crate::base::errors::VastResult;

verus! {

/// Where and how to open a device connection.
#[derive(Debug)]
pub struct ConnectionParams {
    /// Host name, or serial device path.
    pub host: String,
    /// TCP port.
    pub port: u16,
    /// Serial baud rate.
    pub baud: u32,
}

/// A text command transport to a device, implemented by users of the library
/// for serial ports, TCP sockets or test doubles.
pub trait Connection {
    /// Opens a connection.
    fn new(params: &ConnectionParams) -> VastResult<Self> where Self: Sized;

    /// Sends one command.
    fn send(&mut self, command: &str) -> VastResult<()>;

    /// Reads one reply.
    fn receive(&mut self) -> VastResult<String>;

    /// Closes the connection.
    fn disconnect(&mut self);

    /// Whether the connection is open.
    fn is_connected(&mut self) -> bool;
}

} // verus!
