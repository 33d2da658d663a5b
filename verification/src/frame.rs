//! The framing layer: the protocol header and the length-prefixed frame.

use vstd::prelude::*;
use crate::value::Error;
use crate::encode::{be2, be4, v2, v4};
use crate::definitions::{MAJOR, MINOR, REVISION, MIN_MAX_FRAME_SIZE};

verus! {

broadcast use vstd::seq::group_seq_axioms;

/// The protocol id of plain traffic.
pub const PROTO_ID_AMQP: u8 = 0x00;

/// The protocol id of TLS traffic.
pub const PROTO_ID_TLS: u8 = 0x02;

/// The protocol id of the authentication exchange.
pub const PROTO_ID_SASL: u8 = 0x03;

/// The frame type of plain frames.
pub const FRAME_TYPE_AMQP: u8 = 0x00;

/// The frame type of authentication frames.
pub const FRAME_TYPE_SASL: u8 = 0x01;

/// The eight bytes of the protocol header for a given protocol id: the
/// literal name of the protocol, the id, and the version triple.
pub open spec fn spec_protocol_header(id: u8) -> Seq<u8> {
    seq![0x41u8, 0x4du8, 0x51u8, 0x50u8, id, MAJOR, MINOR, REVISION]
}

/// Builds the protocol header a peer must send before any frame.
pub fn protocol_header(id: u8) -> (r: Vec<u8>)
    ensures
        r@ == spec_protocol_header(id),
{
    let mut out: Vec<u8> = Vec::new();
    out.push(0x41);
    out.push(0x4d);
    out.push(0x51);
    out.push(0x50);
    out.push(id);
    out.push(MAJOR);
    out.push(MINOR);
    out.push(REVISION);
    proof {
        assert(out@ =~= spec_protocol_header(id));
    }
    out
}

/// Checks a received protocol header and yields its protocol id. Any
/// mismatch in the name or the version is rejected, and the peer must
/// close the socket.
pub fn parse_protocol_header(bytes: &[u8]) -> (r: Result<u8, Error>)
    ensures
        r matches Ok(id) ==> bytes@ == spec_protocol_header(id),
        r is Err <==> !(exists|id: u8| bytes@ == spec_protocol_header(id)),
{
    if bytes.len() != 8 {
        proof {
            assert(forall|id: u8| spec_protocol_header(id).len() == 8);
        }
        return Err(Error::InvalidFormatCode);
    }
    if bytes[0] == 0x41 && bytes[1] == 0x4d && bytes[2] == 0x51 && bytes[3] == 0x50
        && bytes[5] == MAJOR && bytes[6] == MINOR && bytes[7] == REVISION {
        let id = bytes[4];
        proof {
            assert(bytes@ =~= spec_protocol_header(id));
        }
        Ok(id)
    } else {
        proof {
            assert(forall|id: u8| bytes@ != spec_protocol_header(id));
        }
        Err(Error::InvalidFormatCode)
    }
}

/// The fixed frame header: total size, data offset in four-byte words, the
/// frame type, and the channel number.
#[derive(Clone, Copy, PartialEq, Eq, Structural, Debug)]
pub struct FrameHeader {
    /// The size of the whole frame in bytes, the header included.
    pub size: u32,
    /// The offset of the frame body, in four-byte words.
    pub doff: u8,
    /// The frame type.
    pub ftype: u8,
    /// The channel the frame belongs to.
    pub channel: u16,
}

/// The eight bytes of a frame header on the wire.
pub open spec fn spec_frame_header(h: FrameHeader) -> Seq<u8> {
    be4(h.size) + seq![h.doff, h.ftype] + be2(h.channel)
}

/// A frame as the writer lays it out: the header, then the body bytes that
/// hold the performative, then the payload.
pub open spec fn spec_frame(h: FrameHeader, body: Seq<u8>, payload: Seq<u8>) -> Seq<u8> {
    spec_frame_header(h) + body + payload
}

/// Builds the bytes of one frame around an already-encoded performative
/// body and its payload. Fails exactly when the frame would not fit the
/// remote's negotiated max-frame-size. Every frame produced satisfies the
/// frame invariants: its size is at least eight and at most the limit, and
/// its data offset is at least two.
pub fn encode_frame(channel: u16, ftype: u8, body: &Vec<u8>, payload: &Vec<u8>,
    max_frame_size: u32) -> (r: Result<Vec<u8>, Error>)
    requires
        max_frame_size >= MIN_MAX_FRAME_SIZE,
    ensures
        r matches Ok(b) ==> {
            let size = (8 + body@.len() + payload@.len()) as u32;
            &&& b@ == spec_frame(
                FrameHeader { size, doff: 2, ftype, channel },
                body@,
                payload@,
            )
            &&& b@.len() == size
            &&& size >= 8
            &&& size <= max_frame_size
        },
        r is Ok <==> 8 + body@.len() + payload@.len() <= max_frame_size,
        r matches Err(e) ==> e == Error::NotEncodable,
{
    let blen = body.len() as u64;
    let plen = payload.len() as u64;
    if blen > 0xffffffff || plen > 0xffffffff {
        return Err(Error::NotEncodable);
    }
    if 8 + blen + plen > max_frame_size as u64 {
        return Err(Error::NotEncodable);
    }
    let size = (8 + blen + plen) as u32;
    let mut out: Vec<u8> = Vec::new();
    crate::frame::push_be4(&mut out, size);
    out.push(2);
    out.push(ftype);
    crate::frame::push_be2(&mut out, channel);
    let mut b = body.clone();
    out.append(&mut b);
    let mut p = payload.clone();
    out.append(&mut p);
    proof {
        assert(out@ =~= spec_frame(
            FrameHeader { size, doff: 2, ftype, channel },
            body@,
            payload@,
        ));
    }
    Ok(out)
}

/// Builds the heartbeat frame: a body-less frame whose size is exactly the
/// eight header bytes.
pub fn encode_empty_frame(channel: u16) -> (r: Vec<u8>)
    ensures
        r@ == spec_frame_header(
            FrameHeader { size: 8, doff: 2, ftype: FRAME_TYPE_AMQP, channel },
        ),
        r@.len() == 8,
{
    let mut out: Vec<u8> = Vec::new();
    crate::frame::push_be4(&mut out, 8);
    out.push(2);
    out.push(FRAME_TYPE_AMQP);
    crate::frame::push_be2(&mut out, channel);
    proof {
        assert(out@ =~= spec_frame_header(
            FrameHeader { size: 8, doff: 2, ftype: FRAME_TYPE_AMQP, channel },
        ));
    }
    out
}

/// Appends the two network-order bytes of a 16-bit integer.
pub fn push_be2(out: &mut Vec<u8>, x: u16)
    ensures
        final(out)@ == old(out)@ + be2(x),
{
    out.push((x / 0x100) as u8);
    out.push((x % 0x100) as u8);
    assert(out@ =~= old(out)@ + be2(x));
}

/// Appends the four network-order bytes of a 32-bit integer.
pub fn push_be4(out: &mut Vec<u8>, x: u32)
    ensures
        final(out)@ == old(out)@ + be4(x),
{
    push_be2(out, (x / 0x10000) as u16);
    push_be2(out, (x % 0x10000) as u16);
    assert(out@ =~= old(out)@ + be4(x));
}

/// Reads and checks a frame header from the first eight bytes of a frame.
/// The size must be at least eight and at most the receiver's
/// max-frame-size, and the data offset at least two, else the connection
/// fails with a framing error.
pub fn decode_frame_header(bytes: &[u8], max_frame_size: u32) -> (r: Result<FrameHeader, Error>)
    ensures
        r matches Ok(h) ==> bytes@.len() >= 8 && bytes@.take(8) == spec_frame_header(h)
            && h.size >= 8 && h.size <= max_frame_size && h.doff >= 2,
        r is Err <==> bytes@.len() < 8 || {
            let size = v4(bytes@[0], bytes@[1], bytes@[2], bytes@[3]);
            size < 8 || size > max_frame_size || bytes@[4] < 2
        },
{
    if bytes.len() < 8 {
        return Err(Error::UnexpectedEof);
    }
    let size = (bytes[0] as u32) * 0x1000000 + (bytes[1] as u32) * 0x10000
        + (bytes[2] as u32) * 0x100 + (bytes[3] as u32);
    proof {
        assert(size == v4(bytes@[0], bytes@[1], bytes@[2], bytes@[3]));
    }
    let doff = bytes[4];
    let ftype = bytes[5];
    let channel = (bytes[6] as u16) * 0x100 + (bytes[7] as u16);
    if size < 8 || size > max_frame_size || doff < 2 {
        return Err(Error::SizeMismatch);
    }
    let h = FrameHeader { size, doff, ftype, channel };
    proof {
        crate::encode::lemma_v4_inverse(bytes@[0], bytes@[1], bytes@[2], bytes@[3]);
        crate::encode::lemma_v2_inverse(bytes@[6], bytes@[7]);
        assert(bytes@.take(8) =~= spec_frame_header(h));
    }
    Ok(h)
}

} // verus!
