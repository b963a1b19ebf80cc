//! Session configuration: the virtual interface parameters and the role the
//! process plays. Addresses are held as plain values — an IPv4 address as its
//! 32-bit big-endian integer — so that the handshake can put them on the wire
//! unchanged; the I/O driver converts to and from the OS's address types.

use vstd::prelude::*;

verus! {

/// A TCP endpoint: an IPv4 address and a port.
#[derive(Clone, Copy, Debug, PartialEq, Eq, Structural)]
pub struct Endpoint {
    pub addr: u32,
    pub port: u16,
}

/// Properties of the local virtual interface.
pub struct Interface {
    pub ifname: String,
    pub ifaddr: u32,
    pub netmask: u8,
}

/// The role a session runs under, with the endpoint that role needs: a client
/// dials a remote server, a server binds a local address and accepts one
/// connection.
pub enum Mode {
    Client { remote: Endpoint },
    Server { local: Endpoint },
}

/// Everything a session needs: the virtual interface and the role. The
/// handshake announces the interface, and its encoders require the prefix
/// length to lie in 1..=32; the driver that builds an `Args` checks it first.
pub struct Args {
    pub interface: Interface,
    pub mode: Mode,
}

} // verus!
