//! Wire framing: every message travels as a 32-bit big-endian length
//! followed by that many bytes of canonically-serialized envelope.

use vstd::prelude::*;

use crate::codec::Wire;
use crate::protocol::{Message, MessageV, Signed, SignedV};

verus! {

/// The big-endian byte form of a 32-bit frame length.
pub open spec fn spec_be32(x: u32) -> Seq<u8> {
    seq![(x >> 24) as u8, (x >> 16) as u8, (x >> 8) as u8, x as u8]
}

/// The frame-length value read from four big-endian bytes.
pub open spec fn be32_val(b0: u8, b1: u8, b2: u8, b3: u8) -> int {
    b0 * 0x1000000 + b1 * 0x10000 + b2 * 0x100 + b3
}

/// Reading back the four bytes of a written frame length returns it.
pub proof fn lemma_be32_roundtrip(x: u32)
    ensures
        be32_val((x >> 24) as u8, (x >> 16) as u8, (x >> 8) as u8, x as u8) == x,
{
    assert((((x >> 24) as u8) as u32) * 0x1000000 + (((x >> 16) as u8) as u32) * 0x10000 + (((x
        >> 8) as u8) as u32) * 0x100 + ((x as u8) as u32) == x) by (bit_vector);
}

/// One frame: the payload length, big-endian, then the payload.
pub open spec fn spec_frame(payload: Seq<u8>) -> Seq<u8> {
    spec_be32(payload.len() as u32) + payload
}

/// Parses one frame from position `i`.
pub open spec fn spec_read(s: Seq<u8>, i: int) -> Option<(Seq<u8>, int)> {
    if 0 <= i && i + 4 <= s.len() {
        let n = be32_val(s[i], s[i + 1], s[i + 2], s[i + 3]) as int;
        if i + 4 + n <= s.len() {
            Some((s.subrange(i + 4, i + 4 + n), i + 4 + n))
        } else {
            None
        }
    } else {
        None
    }
}

/// Parsing a frame embedded at position `i` yields its payload.
pub proof fn lemma_read_frame(payload: Seq<u8>, s: Seq<u8>, i: int)
    requires
        payload.len() <= 0xffffffff,
        0 <= i,
        i + spec_frame(payload).len() <= s.len(),
        s.subrange(i, i + spec_frame(payload).len() as int) == spec_frame(payload),
    ensures
        spec_read(s, i) == Some((payload, i + 4 + payload.len() as int)),
{
    let n = payload.len() as u32;
    let w = spec_frame(payload).len() as int;
    lemma_be32_roundtrip(n);
    assert(s[i] == spec_frame(payload)[0]);
    assert(s[i + 1] == spec_frame(payload)[1]);
    assert(s[i + 2] == spec_frame(payload)[2]);
    assert(s[i + 3] == spec_frame(payload)[3]);
    assert(be32_val(s[i], s[i + 1], s[i + 2], s[i + 3]) == n);
    assert(s.subrange(i + 4, i + 4 + n as int) =~= s.subrange(i, i + w).subrange(4, w));
    assert(s.subrange(i, i + w).subrange(4, w) =~= payload);
}

/// Appends one frame holding `data` to the stream.
pub fn write(stream: &mut Vec<u8>, data: &[u8]) -> (r: bool)
    ensures
        r == (data@.len() <= 0xffffffff),
        r ==> final(stream)@ == old(stream)@ + spec_frame(data@),
        !r ==> final(stream)@ == old(stream)@,
{
    if data.len() > 0xffffffff {
        return false;
    }
    let n = data.len() as u32;
    stream.push((n >> 24) as u8);
    stream.push((n >> 16) as u8);
    stream.push((n >> 8) as u8);
    stream.push(n as u8);
    stream.extend_from_slice(data);
    proof {
        assert(stream@ =~= old(stream)@ + spec_frame(data@));
    }
    true
}

/// Parses one frame from the stream at `pos`, mirroring `spec_read`.
pub fn read(stream: &Vec<u8>, pos: usize) -> (r: Option<(Vec<u8>, usize)>)
    ensures
        match spec_read(stream@, pos as int) {
            Some(ve) => {
                &&& r matches Some(p)
                &&& r.unwrap().0@ == ve.0
                &&& r.unwrap().1 as int == ve.1
                &&& ve.1 <= stream@.len()
            },
            None => r is None,
        },
{
    if stream.len() < 4 || pos > stream.len() - 4 {
        return None;
    }
    let n = (stream[pos] as u32) * 0x1000000 + (stream[pos + 1] as u32) * 0x10000 + (stream[pos
        + 2] as u32) * 0x100 + (stream[pos + 3] as u32);
    if n as u64 > (stream.len() - (pos + 4)) as u64 {
        return None;
    }
    let end = pos + 4 + (n as usize);
    let payload = vstd::slice::slice_to_vec(
        vstd::slice::slice_subrange(stream.as_slice(), pos + 4, end),
    );
    Some((payload, end))
}

/// Serializes an envelope canonically and appends it as one frame; fails
/// exactly when the serialization exceeds the frame-length limit, and then
/// leaves the stream unchanged.
pub fn serialize_and_write(stream: &mut Vec<u8>, data: &Signed<Message>) -> (r: bool)
    ensures
        r == (<Signed<Message> as Wire>::spec_enc(data@).len() <= 0xffffffff),
        r ==> final(stream)@ == old(stream)@ + spec_frame(
            <Signed<Message> as Wire>::spec_enc(data@),
        ),
        !r ==> final(stream)@ == old(stream)@,
        <Signed<Message> as Wire>::wire_wf(data@),
{
    let mut payload: Vec<u8> = Vec::new();
    data.enc(&mut payload);
    write(stream, payload.as_slice())
}

/// Parses one frame and decodes the envelope it carries. The whole frame
/// is consumed; bytes after the encoded envelope inside the frame are
/// ignored.
pub fn deserialize_and_read(stream: &Vec<u8>, pos: usize) -> (r: Option<(Signed<Message>, usize)>)
    ensures
        match spec_read(stream@, pos as int) {
            Some(fe) => match <Signed<Message> as Wire>::spec_dec(fe.0, 0) {
                Some(ve) => {
                    &&& r matches Some(p)
                    &&& r.unwrap().0@ == ve.0
                    &&& r.unwrap().1 as int == fe.1
                },
                None => r is None,
            },
            None => r is None,
        },
{
    let (payload, end) = match read(stream, pos) {
        Some(p) => p,
        None => {
            return None;
        },
    };
    match <Signed<Message> as Wire>::dec(&payload, 0) {
        Some((env, _)) => Some((env, end)),
        None => None,
    }
}

/// Parsing a whole frame from its start yields its payload.
pub proof fn lemma_frame_parse(payload: Seq<u8>)
    requires
        payload.len() <= 0xffffffff,
    ensures
        spec_read(spec_frame(payload), 0) == Some((payload, 4 + payload.len() as int)),
{
    let framed = spec_frame(payload);
    assert(framed.subrange(0, framed.len() as int) =~= framed);
    lemma_read_frame(payload, framed, 0);
}

/// Parsing a whole byte string as an envelope from its start yields the
/// envelope it encodes.
pub proof fn lemma_envelope_parse(v: SignedV<MessageV>, bytes: Seq<u8>)
    requires
        <Signed<Message> as Wire>::wire_wf(v),
        bytes == <Signed<Message> as Wire>::spec_enc(v),
    ensures
        <Signed<Message> as Wire>::spec_dec(bytes, 0) == Some((v, bytes.len() as int)),
{
    assert(bytes.subrange(0, bytes.len() as int) =~= bytes);
    <Signed<Message> as Wire>::lemma_dec_enc(v, bytes, 0);
}

/// Round-trip: the canonical serialization of a signed message envelope,
/// framed and parsed back, yields the same envelope.
pub proof fn lemma_envelope_roundtrip(v: SignedV<MessageV>, bytes: Seq<u8>)
    requires
        <Signed<Message> as Wire>::wire_wf(v),
        bytes == <Signed<Message> as Wire>::spec_enc(v),
        bytes.len() <= 0xffffffff,
    ensures
        spec_read(spec_frame(bytes), 0) == Some((bytes, 4 + bytes.len() as int)),
        <Signed<Message> as Wire>::spec_dec(bytes, 0) == Some((v, bytes.len() as int)),
{
    lemma_frame_parse(bytes);
    lemma_envelope_parse(v, bytes);
}

} // verus!
