//! The framing convention of the bytecode module boundary: a buffer's
//! first four bytes give the payload length in little-endian, the payload
//! follows.
use vstd::prelude::*;

use vstd::bytes::{
    lemma_auto_spec_u32_to_from_le_bytes, spec_u32_from_le_bytes, spec_u32_to_le_bytes,
    u32_from_le_bytes, u32_to_le_bytes,
};
use vstd::slice::{slice_subrange, slice_to_vec};

verus! {

/// Prefixes the payload with its four-byte little-endian length.
pub fn frame_buffer(payload: Vec<u8>) -> (r: Vec<u8>)
    requires
        payload@.len() <= u32::MAX,
    ensures
        r@ == spec_u32_to_le_bytes(payload@.len() as u32) + payload@,
        r@.len() == payload@.len() + 4,
{
    let mut out = u32_to_le_bytes(payload.len() as u32);
    let mut payload = payload;
    out.append(&mut payload);
    out
}

/// Recovers the payload from a framed buffer: the buffer must hold the
/// length prefix and exactly as many payload bytes as it promises.
pub fn unframe_buffer(buf: &[u8]) -> (r: Option<Vec<u8>>)
    ensures
        r is Some <==> buf@.len() >= 4 && spec_u32_from_le_bytes(buf@.subrange(0, 4)) + 4
            == buf@.len(),
        r is Some ==> r->0@ == buf@.skip(4),
{
    if buf.len() < 4 {
        return None;
    }
    let len = u32_from_le_bytes(slice_subrange(buf, 0, 4));
    if len as usize != buf.len() - 4 {
        return None;
    }
    let payload = slice_to_vec(slice_subrange(buf, 4, buf.len()));
    proof {
        assert(payload@ =~= buf@.skip(4));
    }
    Some(payload)
}

/// Law: framing a payload and unframing the result gives the payload
/// back, byte for byte.
pub proof fn lemma_frame_round_trip(payload: Seq<u8>)
    requires
        payload.len() <= u32::MAX,
    ensures
        ({
            let framed = spec_u32_to_le_bytes(payload.len() as u32) + payload;
            &&& framed.len() >= 4
            &&& spec_u32_from_le_bytes(framed.subrange(0, 4)) + 4 == framed.len()
            &&& framed.skip(4) == payload
        }),
{
    lemma_auto_spec_u32_to_from_le_bytes();
    let framed = spec_u32_to_le_bytes(payload.len() as u32) + payload;
    assert(framed.subrange(0, 4) =~= spec_u32_to_le_bytes(payload.len() as u32));
    assert(framed.skip(4) =~= payload);
}

} // verus!
