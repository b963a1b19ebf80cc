//! Handshake codec: the fixed seven-byte messages both peers exchange over
//! the fresh TCP connection before forwarding starts. Client and server each
//! send their virtual interface address and prefix length; the server's reply
//! additionally accepts or rejects the session in its status byte.

use vstd::prelude::*;

use crate::codec::{push_u32_be, read_u32_be, spec_u32_be, spec_u32_from_be};

verus! {

/// Length in bytes of either handshake message.
pub const HANDSHAKE_LEN: usize = 7;

/// The only protocol version either peer accepts.
pub const HANDSHAKE_VERSION: u8 = 1;

/// A decoded handshake message: the sender's virtual interface IPv4 address,
/// its prefix length, and the status byte (reserved and 0 in the client's
/// message; 0 for accept in the server's reply).
#[derive(Clone, Copy, Debug, PartialEq, Eq, Structural)]
pub struct HandshakeMsg {
    pub addr: u32,
    pub netmask: u8,
    pub status: u8,
}

/// Why a handshake message was refused. Any of these is fatal to the session.
#[derive(Clone, Copy, Debug, PartialEq, Eq, Structural)]
pub enum HandshakeFault {
    /// The message is not exactly `HANDSHAKE_LEN` bytes.
    Length { len: usize },
    /// The version byte is not `HANDSHAKE_VERSION`.
    Version { got: u8 },
    /// The prefix length is outside 1..=32.
    Netmask { got: u8 },
    /// The server's reply carries a nonzero status: the session was rejected.
    Rejected { status: u8 },
}

/// A prefix length a virtual interface can carry.
pub open spec fn spec_valid_netmask(m: u8) -> bool {
    1 <= m <= 32
}

/// Whether `m` is a prefix length a virtual interface can carry.
pub fn valid_netmask(m: u8) -> (b: bool)
    ensures
        b == spec_valid_netmask(m),
{
    1 <= m && m <= 32
}

/// The seven on-wire bytes of a handshake message:
/// `u8 version | u32 addr | u8 netmask | u8 status`.
pub open spec fn spec_handshake_msg(addr: u32, netmask: u8, status: u8) -> Seq<u8> {
    seq![HANDSHAKE_VERSION] + spec_u32_be(addr) + seq![netmask, status]
}

/// A well-formed handshake message: right length, right version, and a prefix
/// length in range.
pub open spec fn spec_handshake_ok(b: Seq<u8>) -> bool {
    &&& b.len() == HANDSHAKE_LEN
    &&& b[0] == HANDSHAKE_VERSION
    &&& spec_valid_netmask(b[5])
}

/// The message a well-formed handshake byte string carries.
pub open spec fn spec_handshake_value(b: Seq<u8>) -> HandshakeMsg
    recommends
        b.len() == HANDSHAKE_LEN,
{
    HandshakeMsg { addr: spec_u32_from_be(b.subrange(1, 5)), netmask: b[5], status: b[6] }
}

/// Encodes the client's opening message; its status byte is reserved and 0.
pub fn encode_client_hello(addr: u32, netmask: u8) -> (r: Vec<u8>)
    requires
        spec_valid_netmask(netmask),
    ensures
        r@ == spec_handshake_msg(addr, netmask, 0),
        spec_handshake_ok(r@),
{
    encode_handshake_msg(addr, netmask, 0)
}

/// Encodes the server's reply; `status` 0 accepts the session, any other
/// value rejects it.
pub fn encode_server_reply(addr: u32, netmask: u8, status: u8) -> (r: Vec<u8>)
    requires
        spec_valid_netmask(netmask),
    ensures
        r@ == spec_handshake_msg(addr, netmask, status),
        spec_handshake_ok(r@),
{
    encode_handshake_msg(addr, netmask, status)
}

fn encode_handshake_msg(addr: u32, netmask: u8, status: u8) -> (r: Vec<u8>)
    requires
        spec_valid_netmask(netmask),
    ensures
        r@ == spec_handshake_msg(addr, netmask, status),
        spec_handshake_ok(r@),
{
    let mut out: Vec<u8> = Vec::new();
    out.push(HANDSHAKE_VERSION);
    push_u32_be(&mut out, addr);
    out.push(netmask);
    out.push(status);
    proof {
        assert(out@ =~= spec_handshake_msg(addr, netmask, status));
    }
    out
}

/// Decodes a handshake message, checking length, version and prefix length —
/// what both sides verify of what they receive. The status byte passes
/// through; `decode_server_reply` is the variant that judges it.
pub fn decode_handshake(b: &Vec<u8>) -> (r: Result<HandshakeMsg, HandshakeFault>)
    ensures
        r is Ok <==> spec_handshake_ok(b@),
        spec_handshake_ok(b@) ==> r == Ok::<HandshakeMsg, HandshakeFault>(spec_handshake_value(b@)),
        b@.len() != HANDSHAKE_LEN ==> r == Err::<HandshakeMsg, HandshakeFault>(
            HandshakeFault::Length { len: b@.len() as usize },
        ),
        b@.len() == HANDSHAKE_LEN && b@[0] != HANDSHAKE_VERSION ==> r == Err::<
            HandshakeMsg,
            HandshakeFault,
        >(HandshakeFault::Version { got: b@[0] }),
        b@.len() == HANDSHAKE_LEN && b@[0] == HANDSHAKE_VERSION && !spec_valid_netmask(b@[5])
            ==> r == Err::<HandshakeMsg, HandshakeFault>(HandshakeFault::Netmask { got: b@[5] }),
{
    if b.len() != HANDSHAKE_LEN {
        return Err(HandshakeFault::Length { len: b.len() });
    }
    if b[0] != HANDSHAKE_VERSION {
        return Err(HandshakeFault::Version { got: b[0] });
    }
    if !valid_netmask(b[5]) {
        return Err(HandshakeFault::Netmask { got: b[5] });
    }
    let addr = read_u32_be(b, 1);
    Ok(HandshakeMsg { addr, netmask: b[5], status: b[6] })
}

/// Decodes the server's reply as the client judges it: well-formed, and with
/// status 0. A nonzero status is a rejection and fatal.
pub fn decode_server_reply(b: &Vec<u8>) -> (r: Result<HandshakeMsg, HandshakeFault>)
    ensures
        r is Ok <==> spec_handshake_ok(b@) && spec_handshake_value(b@).status == 0,
        spec_handshake_ok(b@) && spec_handshake_value(b@).status == 0 ==> r == Ok::<
            HandshakeMsg,
            HandshakeFault,
        >(spec_handshake_value(b@)),
        spec_handshake_ok(b@) && spec_handshake_value(b@).status != 0 ==> r == Err::<
            HandshakeMsg,
            HandshakeFault,
        >(HandshakeFault::Rejected { status: spec_handshake_value(b@).status }),
        !spec_handshake_ok(b@) ==> r == decode_handshake_err(b@),
{
    let m = match decode_handshake(b) {
        Ok(m) => m,
        Err(f) => {
            return Err(f);
        },
    };
    if m.status != 0 {
        return Err(HandshakeFault::Rejected { status: m.status });
    }
    Ok(m)
}

/// The fault `decode_handshake` reports on an ill-formed message.
pub open spec fn decode_handshake_err(b: Seq<u8>) -> Result<HandshakeMsg, HandshakeFault>
    recommends
        !spec_handshake_ok(b),
{
    if b.len() != HANDSHAKE_LEN {
        Err(HandshakeFault::Length { len: b.len() as usize })
    } else if b[0] != HANDSHAKE_VERSION {
        Err(HandshakeFault::Version { got: b[0] })
    } else {
        Err(HandshakeFault::Netmask { got: b[5] })
    }
}

/// Handshake round-trip: a message either encoder emits decodes back to the
/// same address, prefix length and status.
pub proof fn lemma_handshake_round_trip(addr: u32, netmask: u8, status: u8)
    requires
        spec_valid_netmask(netmask),
    ensures
        spec_handshake_ok(spec_handshake_msg(addr, netmask, status)),
        spec_handshake_value(spec_handshake_msg(addr, netmask, status)) == (HandshakeMsg {
            addr,
            netmask,
            status,
        }),
{
    let b = spec_handshake_msg(addr, netmask, status);
    assert(b.subrange(1, 5) =~= spec_u32_be(addr));
    crate::codec::lemma_u32_be_round_trip(addr);
}

} // verus!
