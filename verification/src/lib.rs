//! A point-to-point layer-3 VPN core: the wire codec, the handshake codec and
//! the forwarding engine that multiplexes a TUN device, a TCP peer and a local
//! interrupt signal. Everything here is pure computation over byte buffers and
//! plain values; the I/O driver around it reads and writes the actual devices.

pub mod codec;
pub mod config;
pub mod engine;
pub mod handshake;

use vstd::prelude::*;

use crate::config::{Args, Endpoint, Interface, Mode};

verus! {

/// Which of the two symmetric sides this process is.
#[derive(Clone, Copy, Debug, PartialEq, Eq, Structural)]
pub enum Role {
    Client,
    Server,
}

/// What the I/O driver must do to start a session: dial or bind `endpoint`
/// according to `role`, configure the interface, then run the handshake and
/// hand the connection to the forwarding engine.
pub struct SessionPlan {
    pub role: Role,
    pub endpoint: Endpoint,
    pub interface: Interface,
}

/// Turns a session request into the plan the I/O driver executes: a client
/// mode dials its remote endpoint, a server mode binds its local one. The
/// interface parameters pass through unchanged.
pub fn run(args: Args) -> (plan: SessionPlan)
    ensures
        plan.interface == args.interface,
        match args.mode {
            Mode::Client { remote } => plan.role == Role::Client && plan.endpoint == remote,
            Mode::Server { local } => plan.role == Role::Server && plan.endpoint == local,
        },
{
    match args.mode {
        Mode::Client { remote } => SessionPlan {
            role: Role::Client,
            endpoint: remote,
            interface: args.interface,
        },
        Mode::Server { local } => SessionPlan {
            role: Role::Server,
            endpoint: local,
            interface: args.interface,
        },
    }
}

} // verus!
