//! Wire codec: the framing of `DATA` and `EXIT` messages on the TCP byte
//! stream. Every multi-byte integer field is serialized big-endian.

use vstd::prelude::*;

verus! {

/// Size of the per-direction packet buffer, and the largest payload a `DATA`
/// frame may carry. The TUN device's MTU must not exceed it.
pub const BUF_SZ: usize = 4096;

/// Upper bound on any frame header; an outbound write buffer of
/// `MAX_HEADER_SZ + BUF_SZ` bytes holds any single frame.
pub const MAX_HEADER_SZ: usize = 64;

/// Frame type tag of a `DATA` frame.
pub const FRAME_DATA: u32 = 1;

/// Frame type tag of an `EXIT` frame.
pub const FRAME_EXIT: u32 = 2;

/// The big-endian bytes of a `u32`, most significant first.
pub open spec fn spec_u32_be(v: u32) -> Seq<u8> {
    seq![
        ((v >> 24) & 0xff) as u8,
        ((v >> 16) & 0xff) as u8,
        ((v >> 8) & 0xff) as u8,
        (v & 0xff) as u8,
    ]
}

/// The big-endian bytes of a `u64`, most significant first.
pub open spec fn spec_u64_be(v: u64) -> Seq<u8> {
    seq![
        ((v >> 56) & 0xff) as u8,
        ((v >> 48) & 0xff) as u8,
        ((v >> 40) & 0xff) as u8,
        ((v >> 32) & 0xff) as u8,
        ((v >> 24) & 0xff) as u8,
        ((v >> 16) & 0xff) as u8,
        ((v >> 8) & 0xff) as u8,
        (v & 0xff) as u8,
    ]
}

/// The `u32` read big-endian from four bytes.
pub open spec fn spec_u32_from_be(b: Seq<u8>) -> u32
    recommends
        b.len() == 4,
{
    ((b[0] as u32) << 24) | ((b[1] as u32) << 16) | ((b[2] as u32) << 8) | (b[3] as u32)
}

/// The `u64` read big-endian from eight bytes.
pub open spec fn spec_u64_from_be(b: Seq<u8>) -> u64
    recommends
        b.len() == 8,
{
    ((b[0] as u64) << 56) | ((b[1] as u64) << 48) | ((b[2] as u64) << 40) | ((b[3] as u64) << 32)
        | ((b[4] as u64) << 24) | ((b[5] as u64) << 16) | ((b[6] as u64) << 8) | (b[7] as u64)
}

pub proof fn lemma_u32_be_round_trip(v: u32)
    ensures
        spec_u32_from_be(spec_u32_be(v)) == v,
{
    assert((((((v >> 24) & 0xff) as u8) as u32) << 24) | (((((v >> 16) & 0xff) as u8) as u32)
        << 16) | (((((v >> 8) & 0xff) as u8) as u32) << 8) | ((((v & 0xff) as u8) as u32))
        == v) by (bit_vector);
}

pub proof fn lemma_u64_be_round_trip(v: u64)
    ensures
        spec_u64_from_be(spec_u64_be(v)) == v,
{
    assert((((((v >> 56) & 0xff) as u8) as u64) << 56) | (((((v >> 48) & 0xff) as u8) as u64)
        << 48) | (((((v >> 40) & 0xff) as u8) as u64) << 40) | (((((v >> 32) & 0xff) as u8)
        as u64) << 32) | (((((v >> 24) & 0xff) as u8) as u64) << 24) | (((((v >> 16) & 0xff)
        as u8) as u64) << 16) | (((((v >> 8) & 0xff) as u8) as u64) << 8) | ((((v & 0xff) as u8)
        as u64)) == v) by (bit_vector);
}

/// Appends the big-endian bytes of `v` to `out`.
pub fn push_u32_be(out: &mut Vec<u8>, v: u32)
    ensures
        final(out)@ == old(out)@ + spec_u32_be(v),
{
    out.push(((v >> 24) & 0xff) as u8);
    out.push(((v >> 16) & 0xff) as u8);
    out.push(((v >> 8) & 0xff) as u8);
    out.push((v & 0xff) as u8);
    assert(out@ =~= old(out)@ + spec_u32_be(v));
}

/// Appends the big-endian bytes of `v` to `out`.
pub fn push_u64_be(out: &mut Vec<u8>, v: u64)
    ensures
        final(out)@ == old(out)@ + spec_u64_be(v),
{
    out.push(((v >> 56) & 0xff) as u8);
    out.push(((v >> 48) & 0xff) as u8);
    out.push(((v >> 40) & 0xff) as u8);
    out.push(((v >> 32) & 0xff) as u8);
    out.push(((v >> 24) & 0xff) as u8);
    out.push(((v >> 16) & 0xff) as u8);
    out.push(((v >> 8) & 0xff) as u8);
    out.push((v & 0xff) as u8);
    assert(out@ =~= old(out)@ + spec_u64_be(v));
}

/// Reads the big-endian `u32` at offset `off` of `buf`.
pub fn read_u32_be(buf: &Vec<u8>, off: usize) -> (v: u32)
    requires
        off + 4 <= buf@.len(),
    ensures
        v == spec_u32_from_be(buf@.subrange(off as int, off as int + 4)),
{
    // Pins the buffer's length as a machine integer, so the offsets fit.
    let _n: usize = buf.len();
    let v = ((buf[off] as u32) << 24) | ((buf[off + 1] as u32) << 16) | ((buf[off + 2] as u32)
        << 8) | (buf[off + 3] as u32);
    proof {
        let s = buf@.subrange(off as int, off as int + 4);
        assert(s[0] == buf@[off as int]);
        assert(s[1] == buf@[off as int + 1]);
        assert(s[2] == buf@[off as int + 2]);
        assert(s[3] == buf@[off as int + 3]);
    }
    v
}

/// Reads the big-endian `u64` at offset `off` of `buf`.
pub fn read_u64_be(buf: &Vec<u8>, off: usize) -> (v: u64)
    requires
        off + 8 <= buf@.len(),
    ensures
        v == spec_u64_from_be(buf@.subrange(off as int, off as int + 8)),
{
    // Pins the buffer's length as a machine integer, so the offsets fit.
    let _n: usize = buf.len();
    let v = ((buf[off] as u64) << 56) | ((buf[off + 1] as u64) << 48) | ((buf[off + 2] as u64)
        << 40) | ((buf[off + 3] as u64) << 32) | ((buf[off + 4] as u64) << 24) | ((buf[off + 5]
        as u64) << 16) | ((buf[off + 6] as u64) << 8) | (buf[off + 7] as u64);
    proof {
        let s = buf@.subrange(off as int, off as int + 8);
        assert(s[0] == buf@[off as int]);
        assert(s[1] == buf@[off as int + 1]);
        assert(s[2] == buf@[off as int + 2]);
        assert(s[3] == buf@[off as int + 3]);
        assert(s[4] == buf@[off as int + 4]);
        assert(s[5] == buf@[off as int + 5]);
        assert(s[6] == buf@[off as int + 6]);
        assert(s[7] == buf@[off as int + 7]);
    }
    v
}

/// A protocol violation found while decoding the inbound byte stream. Each
/// one is fatal to the session.
#[derive(Clone, Copy, Debug, PartialEq, Eq, Structural)]
pub enum ProtocolFault {
    /// The frame type tag is neither `FRAME_DATA` nor `FRAME_EXIT`.
    UnknownKind { kind: u32 },
    /// A `DATA` frame announces a payload longer than `BUF_SZ`.
    Oversize { length: u32 },
    /// An `EXIT` frame carries a reason other than 0.
    BadExitReason { reason: u32 },
}

/// A complete frame, as delivered by the decoder.
pub enum Frame {
    Data { counter: u64, payload: Vec<u8> },
    Exit { reason: u32 },
}

/// The mathematical value of a frame: the payload as a byte sequence.
pub enum SpecFrame {
    Data { counter: u64, payload: Seq<u8> },
    Exit { reason: u32 },
}

impl View for Frame {
    type V = SpecFrame;

    open spec fn view(&self) -> SpecFrame {
        match self {
            Frame::Data { counter, payload } => SpecFrame::Data {
                counter: *counter,
                payload: payload@,
            },
            Frame::Exit { reason } => SpecFrame::Exit { reason: *reason },
        }
    }
}

/// What the decoder says of a byte sequence: not yet a whole frame, a whole
/// frame together with how many bytes it occupies, or a protocol violation.
pub enum SpecDecode {
    Pending,
    Complete { frame: SpecFrame, consumed: int },
    Violation { fault: ProtocolFault },
}

/// The decoder's result on a byte buffer.
pub enum DecodeResult {
    /// The buffer holds only a proper prefix of a frame; more bytes are needed.
    Pending,
    /// The first `consumed` bytes of the buffer form `frame`.
    Complete { frame: Frame, consumed: usize },
    /// The buffer opens with a protocol violation.
    Violation { fault: ProtocolFault },
}

/// The on-wire bytes of a `DATA` frame:
/// `u32 type=1 | u32 length | u64 counter | payload`.
pub open spec fn spec_data_frame(counter: u64, payload: Seq<u8>) -> Seq<u8> {
    spec_u32_be(FRAME_DATA) + spec_u32_be(payload.len() as u32) + spec_u64_be(counter) + payload
}

/// The on-wire bytes of an `EXIT` frame: `u32 type=2 | u32 reason`.
pub open spec fn spec_exit_frame(reason: u32) -> Seq<u8> {
    spec_u32_be(FRAME_EXIT) + spec_u32_be(reason)
}

/// What decoding the front of `b` yields. A frame is consumed atomically:
/// nothing is delivered until every byte of the frame has arrived, and the
/// length field is judged against `BUF_SZ` as soon as it is readable.
pub open spec fn spec_decode(b: Seq<u8>) -> SpecDecode {
    if b.len() < 4 {
        SpecDecode::Pending
    } else {
        let kind = spec_u32_from_be(b.subrange(0, 4));
        if kind == FRAME_DATA {
            if b.len() < 8 {
                SpecDecode::Pending
            } else {
                let length = spec_u32_from_be(b.subrange(4, 8));
                if length > BUF_SZ {
                    SpecDecode::Violation { fault: ProtocolFault::Oversize { length } }
                } else if b.len() < 16 + length {
                    SpecDecode::Pending
                } else {
                    SpecDecode::Complete {
                        frame: SpecFrame::Data {
                            counter: spec_u64_from_be(b.subrange(8, 16)),
                            payload: b.subrange(16, 16 + length as int),
                        },
                        consumed: 16 + length as int,
                    }
                }
            }
        } else if kind == FRAME_EXIT {
            if b.len() < 8 {
                SpecDecode::Pending
            } else {
                let reason = spec_u32_from_be(b.subrange(4, 8));
                if reason != 0 {
                    SpecDecode::Violation { fault: ProtocolFault::BadExitReason { reason } }
                } else {
                    SpecDecode::Complete { frame: SpecFrame::Exit { reason: 0 }, consumed: 8 }
                }
            }
        } else {
            SpecDecode::Violation { fault: ProtocolFault::UnknownKind { kind } }
        }
    }
}

/// Appends all of `src` to `out`.
pub fn append_bytes(out: &mut Vec<u8>, src: &Vec<u8>)
    ensures
        final(out)@ == old(out)@ + src@,
{
    let mut i: usize = 0;
    while i < src.len()
        invariant
            i <= src@.len(),
            out@ == old(out)@ + src@.subrange(0, i as int),
        decreases src@.len() - i,
    {
        out.push(src[i]);
        i = i + 1;
        assert(out@ =~= old(out)@ + src@.subrange(0, i as int));
    }
    assert(src@.subrange(0, src@.len() as int) =~= src@);
}

/// The bytes of `src` from `from` (inclusive) to `to` (exclusive), as a fresh
/// buffer.
pub fn copy_range(src: &Vec<u8>, from: usize, to: usize) -> (r: Vec<u8>)
    requires
        from <= to <= src@.len(),
    ensures
        r@ == src@.subrange(from as int, to as int),
{
    let mut r: Vec<u8> = Vec::new();
    let mut i: usize = from;
    while i < to
        invariant
            from <= i <= to <= src@.len(),
            r@ == src@.subrange(from as int, i as int),
        decreases to - i,
    {
        r.push(src[i]);
        i = i + 1;
        assert(r@ =~= src@.subrange(from as int, i as int));
    }
    r
}

/// Encodes one `DATA` frame carrying `payload` under sequence number
/// `counter`.
pub fn encode_data(counter: u64, payload: &Vec<u8>) -> (r: Vec<u8>)
    requires
        0 < payload@.len() <= BUF_SZ,
    ensures
        r@ == spec_data_frame(counter, payload@),
{
    let mut out: Vec<u8> = Vec::new();
    push_u32_be(&mut out, FRAME_DATA);
    push_u32_be(&mut out, payload.len() as u32);
    push_u64_be(&mut out, counter);
    append_bytes(&mut out, payload);
    out
}

/// Encodes one `EXIT` frame carrying `reason` (0 is the only reason a
/// conforming peer sends; the rest are reserved).
pub fn encode_exit(reason: u32) -> (r: Vec<u8>)
    ensures
        r@ == spec_exit_frame(reason),
{
    let mut out: Vec<u8> = Vec::new();
    push_u32_be(&mut out, FRAME_EXIT);
    push_u32_be(&mut out, reason);
    out
}

/// Appends one `EXIT` frame carrying `exit_reason` to the outbound write
/// buffer `stream`.
pub fn send_exit_pkt(stream: &mut Vec<u8>, exit_reason: u32)
    ensures
        final(stream)@ == old(stream)@ + spec_exit_frame(exit_reason),
{
    push_u32_be(stream, FRAME_EXIT);
    push_u32_be(stream, exit_reason);
    assert(stream@ =~= old(stream)@ + spec_exit_frame(exit_reason));
}

/// Decodes the frame at the front of `buf`, if a whole one has arrived.
pub fn decode_frame(buf: &Vec<u8>) -> (r: DecodeResult)
    ensures
        match spec_decode(buf@) {
            SpecDecode::Pending => r is Pending,
            SpecDecode::Complete { frame, consumed } => r matches DecodeResult::Complete {
                frame: f,
                consumed: c,
            } && f@ == frame && c == consumed,
            SpecDecode::Violation { fault } => r matches DecodeResult::Violation { fault: g }
                && g == fault,
        },
{
    if buf.len() < 4 {
        return DecodeResult::Pending;
    }
    let kind = read_u32_be(buf, 0);
    if kind == FRAME_DATA {
        if buf.len() < 8 {
            return DecodeResult::Pending;
        }
        let length = read_u32_be(buf, 4);
        if length > BUF_SZ as u32 {
            return DecodeResult::Violation { fault: ProtocolFault::Oversize { length } };
        }
        let need: usize = 16 + length as usize;
        if buf.len() < need {
            return DecodeResult::Pending;
        }
        let counter = read_u64_be(buf, 8);
        let payload = copy_range(buf, 16, need);
        DecodeResult::Complete { frame: Frame::Data { counter, payload }, consumed: need }
    } else if kind == FRAME_EXIT {
        if buf.len() < 8 {
            return DecodeResult::Pending;
        }
        let reason = read_u32_be(buf, 4);
        if reason != 0 {
            return DecodeResult::Violation { fault: ProtocolFault::BadExitReason { reason } };
        }
        DecodeResult::Complete { frame: Frame::Exit { reason }, consumed: 8 }
    } else {
        DecodeResult::Violation { fault: ProtocolFault::UnknownKind { kind } }
    }
}

/// A `DATA` frame at the front of a stream decodes back to exactly the
/// counter and payload it was encoded from, whatever follows it.
pub proof fn lemma_data_frame_decode(counter: u64, payload: Seq<u8>, rest: Seq<u8>)
    requires
        0 < payload.len() <= BUF_SZ,
    ensures
        spec_decode(spec_data_frame(counter, payload) + rest) == (SpecDecode::Complete {
            frame: SpecFrame::Data { counter, payload },
            consumed: 16 + payload.len() as int,
        }),
{
    let b = spec_data_frame(counter, payload) + rest;
    assert(b.subrange(0, 4) =~= spec_u32_be(FRAME_DATA));
    lemma_u32_be_round_trip(FRAME_DATA);
    assert(b.subrange(4, 8) =~= spec_u32_be(payload.len() as u32));
    lemma_u32_be_round_trip(payload.len() as u32);
    assert(b.subrange(8, 16) =~= spec_u64_be(counter));
    lemma_u64_be_round_trip(counter);
    assert(b.subrange(16, 16 + payload.len() as int) =~= payload);
}

/// Frame round-trip: decoding an encoded `DATA` frame yields the frame back,
/// for every payload that fits the packet buffer and every counter.
pub proof fn lemma_data_round_trip(counter: u64, payload: Seq<u8>)
    requires
        0 < payload.len() <= BUF_SZ,
    ensures
        spec_decode(spec_data_frame(counter, payload)) == (SpecDecode::Complete {
            frame: SpecFrame::Data { counter, payload },
            consumed: 16 + payload.len() as int,
        }),
{
    assert(spec_data_frame(counter, payload) + Seq::<u8>::empty() =~= spec_data_frame(
        counter,
        payload,
    ));
    lemma_data_frame_decode(counter, payload, Seq::<u8>::empty());
}

/// `EXIT` round-trip: decoding an encoded `EXIT(0)` frame yields `EXIT(0)`,
/// whatever follows it.
pub proof fn lemma_exit_frame_decode(rest: Seq<u8>)
    ensures
        spec_decode(spec_exit_frame(0) + rest) == (SpecDecode::Complete {
            frame: SpecFrame::Exit { reason: 0 },
            consumed: 8,
        }),
{
    let b = spec_exit_frame(0) + rest;
    assert(b.subrange(0, 4) =~= spec_u32_be(FRAME_EXIT));
    lemma_u32_be_round_trip(FRAME_EXIT);
    assert(b.subrange(4, 8) =~= spec_u32_be(0));
    lemma_u32_be_round_trip(0);
}

/// `EXIT` round-trip on the bare frame.
pub proof fn lemma_exit_round_trip()
    ensures
        spec_decode(spec_exit_frame(0)) == (SpecDecode::Complete {
            frame: SpecFrame::Exit { reason: 0 },
            consumed: 8,
        }),
{
    assert(spec_exit_frame(0) + Seq::<u8>::empty() =~= spec_exit_frame(0));
    lemma_exit_frame_decode(Seq::<u8>::empty());
}

/// At most one frame is in flight per direction: no proper prefix of a `DATA`
/// frame decodes to anything. A transmission cut mid-frame leaves the decoder
/// pending, so a partial payload is never delivered to the TUN device.
pub proof fn lemma_no_partial_delivery(counter: u64, payload: Seq<u8>, k: int)
    requires
        0 < payload.len() <= BUF_SZ,
        0 <= k < 16 + payload.len(),
    ensures
        spec_decode(spec_data_frame(counter, payload).take(k)) is Pending,
{
    let b = spec_data_frame(counter, payload).take(k);
    assert(b.len() == k);
    if k >= 4 {
        assert(b.subrange(0, 4) =~= spec_u32_be(FRAME_DATA));
        lemma_u32_be_round_trip(FRAME_DATA);
        if k >= 8 {
            assert(b.subrange(4, 8) =~= spec_u32_be(payload.len() as u32));
            lemma_u32_be_round_trip(payload.len() as u32);
        }
    }
}

/// The wire bytes of payloads `p1, ..., pk`, each framed as `DATA` and
/// numbered consecutively from `base + 1` on.
pub open spec fn spec_wire_of(payloads: Seq<Seq<u8>>, base: u64) -> Seq<u8>
    decreases payloads.len(),
{
    if payloads.len() == 0 {
        Seq::<u8>::empty()
    } else {
        spec_data_frame((base + 1) as u64, payloads[0]) + spec_wire_of(
            payloads.skip(1),
            (base + 1) as u64,
        )
    }
}

/// The payloads a receiver delivers to its TUN device from byte stream `b`,
/// in order: whole `DATA` frames from the front, until the stream runs dry,
/// an `EXIT` frame arrives, or a protocol violation stops the session.
pub open spec fn spec_deliveries(b: Seq<u8>) -> Seq<Seq<u8>>
    decreases b.len(),
{
    match spec_decode(b) {
        SpecDecode::Complete { frame, consumed } => match frame {
            // The bound on `consumed` always holds of a complete decode; the
            // test only carries what the recursion's termination needs.
            SpecFrame::Data { counter, payload } => if 0 < consumed <= b.len() {
                seq![payload] + spec_deliveries(b.skip(consumed))
            } else {
                seq![payload]
            },
            SpecFrame::Exit { reason } => Seq::<Seq<u8>>::empty(),
        },
        _ => Seq::<Seq<u8>>::empty(),
    }
}

/// Sending one more payload appends exactly one more `DATA` frame to the
/// wire, numbered one past the payloads before it — the frame
/// `Engine::on_tun_packet` emits for it.
pub proof fn lemma_wire_of_snoc(payloads: Seq<Seq<u8>>, p: Seq<u8>, base: u64)
    requires
        base + payloads.len() + 1 <= u64::MAX,
    ensures
        spec_wire_of(payloads.push(p), base) == spec_wire_of(payloads, base) + spec_data_frame(
            (base + payloads.len() + 1) as u64,
            p,
        ),
    decreases payloads.len(),
{
    if payloads.len() == 0 {
        let frame = spec_data_frame((base + 1) as u64, p);
        assert(payloads.push(p)[0] == p);
        assert(payloads.push(p).skip(1) =~= Seq::<Seq<u8>>::empty());
        assert(spec_wire_of(payloads.push(p), base) == frame + spec_wire_of(
            Seq::<Seq<u8>>::empty(),
            (base + 1) as u64,
        ));
        assert(frame + Seq::<u8>::empty() =~= frame);
        assert(spec_wire_of(payloads, base) + frame =~= frame);
    } else {
        let head = spec_data_frame((base + 1) as u64, payloads[0]);
        assert(payloads.push(p).skip(1) =~= payloads.skip(1).push(p));
        lemma_wire_of_snoc(payloads.skip(1), p, (base + 1) as u64);
        assert(head + (spec_wire_of(payloads.skip(1), (base + 1) as u64) + spec_data_frame(
            (base + payloads.len() + 1) as u64,
            p,
        )) =~= (head + spec_wire_of(payloads.skip(1), (base + 1) as u64)) + spec_data_frame(
            (base + payloads.len() + 1) as u64,
            p,
        ));
    }
}

/// Order preservation: a receiver fed exactly the wire bytes of payloads
/// `p1, ..., pk` delivers exactly `p1, ..., pk`, in order.
#[verifier::rlimit(100)]
pub proof fn lemma_order_preservation(payloads: Seq<Seq<u8>>, base: u64)
    requires
        forall|i: int| 0 <= i < payloads.len() ==> 0 < #[trigger] payloads[i].len() <= BUF_SZ,
        base + payloads.len() <= u64::MAX,
    ensures
        spec_deliveries(spec_wire_of(payloads, base)) == payloads,
    decreases payloads.len(),
{
    if payloads.len() == 0 {
        assert(spec_deliveries(Seq::<u8>::empty()) =~= Seq::<Seq<u8>>::empty());
        assert(payloads =~= Seq::<Seq<u8>>::empty());
    } else {
        let head = payloads[0];
        let frame = spec_data_frame((base + 1) as u64, head);
        let rest = spec_wire_of(payloads.skip(1), (base + 1) as u64);
        assert(spec_wire_of(payloads, base) == frame + rest);
        lemma_data_frame_decode((base + 1) as u64, head, rest);
        let consumed = 16 + head.len() as int;
        assert(frame.len() == consumed);
        assert(0 < consumed <= (frame + rest).len());
        assert((frame + rest).skip(consumed) =~= rest);
        assert(spec_deliveries(frame + rest) == seq![head] + spec_deliveries(rest));
        lemma_order_preservation(payloads.skip(1), (base + 1) as u64);
        assert(seq![head] + payloads.skip(1) =~= payloads);
    }
}

} // verus!
