//! Wire framing of the remote-console protocol.
//!
//! A packet is a little-endian 32-bit length word followed by the payload:
//! a 32-bit request id, a 32-bit packet type, the body bytes, and two zero
//! terminator bytes. The length word counts the payload bytes, so it equals
//! the body length plus ten. The 32-bit words are held here as unsigned
//! values; the protocol's auth-failure sentinel `-1` is the all-ones word.

use vstd::prelude::*;
use crate::console::ConsoleError;

verus! {

/// Packet type of an authentication request.
pub const PACKET_TYPE_AUTH: u32 = 3;

/// Packet type of a command execution request, and of an authentication
/// response.
pub const PACKET_TYPE_EXEC: u32 = 2;

/// Packet type of a command response.
pub const PACKET_TYPE_RESPONSE: u32 = 0;

/// The request id a server answers with when authentication fails: the
/// protocol's `-1` as an unsigned word.
pub const AUTH_FAILURE_ID: u32 = 0xffff_ffff;

/// One console packet, without its length word.
#[derive(Clone, PartialEq, Eq, Debug)]
pub struct Packet {
    pub id: u32,
    pub ptype: u32,
    pub body: Vec<u8>,
}

/// The four little-endian bytes of a 32-bit word.
pub open spec fn u32_le(x: u32) -> Seq<u8> {
    seq![
        (x & 0xff) as u8,
        ((x >> 8) & 0xff) as u8,
        ((x >> 16) & 0xff) as u8,
        ((x >> 24) & 0xff) as u8,
    ]
}

/// The 32-bit word read from four little-endian bytes.
pub open spec fn u32_of_le(b: Seq<u8>) -> u32 {
    ((b[0] as u32) | ((b[1] as u32) << 8) | ((b[2] as u32) << 16) | ((b[3] as u32) << 24)) as u32
}

pub proof fn lemma_u32_le_round_trip(x: u32)
    ensures
        u32_of_le(u32_le(x)) == x,
{
    assert(((((x & 0xff) as u8) as u32) | ((((x >> 8) & 0xff) as u8) as u32) << 8 | ((((x >> 16)
        & 0xff) as u8) as u32) << 16 | ((((x >> 24) & 0xff) as u8) as u32) << 24) == x)
        by (bit_vector);
}

/// The payload of a packet: id, type, body, two zero terminators.
pub open spec fn payload_bytes(id: u32, ptype: u32, body: Seq<u8>) -> Seq<u8> {
    u32_le(id) + u32_le(ptype) + body + seq![0u8, 0u8]
}

/// A whole frame: the payload's length as a little-endian word, then the
/// payload.
pub open spec fn frame_bytes(id: u32, ptype: u32, body: Seq<u8>) -> Seq<u8> {
    u32_le((body.len() + 10) as u32) + payload_bytes(id, ptype, body)
}

fn push_u32_le(out: &mut Vec<u8>, x: u32)
    ensures
        final(out)@ == old(out)@ + u32_le(x),
{
    out.push((x & 0xff) as u8);
    out.push(((x >> 8) & 0xff) as u8);
    out.push(((x >> 16) & 0xff) as u8);
    out.push(((x >> 24) & 0xff) as u8);
    proof {
        assert(out@ =~= old(out)@ + u32_le(x));
    }
}

/// Encodes a request as a full frame. The body carries the command text,
/// which the protocol terminates with zero bytes, so it must hold none; the
/// protocol also caps the body of a request at 4096 bytes.
pub fn encode_packet(id: u32, ptype: u32, body: &Vec<u8>) -> (r: Vec<u8>)
    requires
        body@.len() <= 4096,
        forall|i: int| 0 <= i < body@.len() ==> body@[i] != 0,
    ensures
        r@ == frame_bytes(id, ptype, body@),
{
    let mut r: Vec<u8> = Vec::new();
    let n = (body.len() + 10) as u32;
    push_u32_le(&mut r, n);
    push_u32_le(&mut r, id);
    push_u32_le(&mut r, ptype);
    let mut i: usize = 0;
    while i < body.len()
        invariant
            i <= body@.len(),
            body@.len() <= 4096,
            n == body@.len() + 10,
            r@ == u32_le(n) + u32_le(id) + u32_le(ptype) + body@.take(i as int),
        decreases body@.len() - i,
    {
        r.push(body[i]);
        proof {
            assert(body@.take(i + 1) =~= body@.take(i as int).push(body@[i as int]));
            assert(r@ =~= u32_le(n) + u32_le(id) + u32_le(ptype) + body@.take(i + 1));
        }
        i = i + 1;
    }
    r.push(0);
    r.push(0);
    proof {
        assert(body@.take(body@.len() as int) =~= body@);
        assert(r@ =~= frame_bytes(id, ptype, body@));
    }
    r
}

/// Reads the length word that precedes a payload.
pub fn parse_frame_length(b: &Vec<u8>) -> (n: u32)
    requires
        b@.len() == 4,
    ensures
        n == u32_of_le(b@),
{
    (b[0] as u32) | ((b[1] as u32) << 8) | ((b[2] as u32) << 16) | ((b[3] as u32) << 24)
}

/// Whether a byte sequence is a well-formed packet payload: long enough for
/// the two words and the terminators, and ending in the two zero bytes.
pub open spec fn payload_well_formed(p: Seq<u8>) -> bool {
    p.len() >= 10 && p[p.len() - 2] == 0 && p[p.len() - 1] == 0
}

/// Parses a packet payload (the bytes after the length word). Exactly the
/// well-formed payloads parse; anything else is a protocol error.
pub fn parse_packet_payload(payload: &Vec<u8>) -> (r: Result<Packet, ConsoleError>)
    ensures
        r is Ok <==> payload_well_formed(payload@),
        r matches Err(e) ==> e == ConsoleError::ProtocolError,
        r matches Ok(p) ==> {
            &&& p.id == u32_of_le(payload@.subrange(0, 4))
            &&& p.ptype == u32_of_le(payload@.subrange(4, 8))
            &&& p.body@ == payload@.subrange(8, payload@.len() - 2)
        },
{
    let len = payload.len();
    if len < 10 || payload[len - 2] != 0 || payload[len - 1] != 0 {
        return Err(ConsoleError::ProtocolError);
    }
    let id = (payload[0] as u32) | ((payload[1] as u32) << 8) | ((payload[2] as u32) << 16) | ((
    payload[3] as u32) << 24);
    let ptype = (payload[4] as u32) | ((payload[5] as u32) << 8) | ((payload[6] as u32) << 16) | ((
    payload[7] as u32) << 24);
    let mut body: Vec<u8> = Vec::new();
    let mut i: usize = 8;
    while i < len - 2
        invariant
            8 <= i <= payload@.len() - 2,
            len == payload@.len(),
            payload@.len() >= 10,
            body@ == payload@.subrange(8, i as int),
        decreases len - 2 - i,
    {
        body.push(payload[i]);
        proof {
            assert(payload@.subrange(8, i + 1) =~= payload@.subrange(8, i as int).push(
                payload@[i as int],
            ));
        }
        i = i + 1;
    }
    proof {
        assert(id == u32_of_le(payload@.subrange(0, 4)));
        assert(ptype == u32_of_le(payload@.subrange(4, 8)));
    }
    Ok(Packet { id, ptype, body })
}

/// Round trip of the framing: the payload of an encoded frame is well
/// formed and parses back to the same id, type and body.
pub proof fn lemma_frame_round_trip(id: u32, ptype: u32, body: Seq<u8>)
    requires
        body.len() <= 4096,
    ensures
        frame_bytes(id, ptype, body).subrange(4, frame_bytes(id, ptype, body).len() as int)
            == payload_bytes(id, ptype, body),
        payload_well_formed(payload_bytes(id, ptype, body)),
        u32_of_le(payload_bytes(id, ptype, body).subrange(0, 4)) == id,
        u32_of_le(payload_bytes(id, ptype, body).subrange(4, 8)) == ptype,
        payload_bytes(id, ptype, body).subrange(
            8,
            payload_bytes(id, ptype, body).len() - 2,
        ) == body,
{
    let p = payload_bytes(id, ptype, body);
    assert(frame_bytes(id, ptype, body).subrange(4, frame_bytes(id, ptype, body).len() as int)
        =~= p);
    assert(p.subrange(0, 4) =~= u32_le(id));
    assert(p.subrange(4, 8) =~= u32_le(ptype));
    assert(p.subrange(8, p.len() - 2) =~= body);
    lemma_u32_le_round_trip(id);
    lemma_u32_le_round_trip(ptype);
}

/// Checks an authentication response against the id of the request: the
/// server echoes the request id on success and answers with the failure
/// sentinel otherwise.
pub fn auth_result(request_id: u32, response: &Packet) -> (r: Result<(), ConsoleError>)
    ensures
        r is Ok <==> response.id == request_id,
        r matches Err(e) ==> e == ConsoleError::AuthFailed,
{
    if response.id == request_id {
        Ok(())
    } else {
        Err(ConsoleError::AuthFailed)
    }
}

} // verus!
