//! Length-prefixed frames: a big-endian `u32` length, then exactly that many
//! bytes of one encoded packet.
use vstd::prelude::*;
use vstd::slice::{slice_subrange, slice_to_vec};
use crate::codec::{dec_packet, DecodeError};
use crate::protocol::{Packet, PacketView};

verus! {

/// Largest payload a lane accepts; a longer declared length marks the
/// stream as malformed.
pub const MAX_FRAME_LEN: u32 = 67108864;

/// The four header bytes of a frame whose payload has `n` bytes.
pub open spec fn be_u32_bytes(n: u32) -> Seq<u8> {
    seq![(n / 16777216) as u8, ((n / 65536) % 256) as u8, ((n / 256) % 256) as u8, (n % 256) as u8]
}

/// The length that four header bytes declare.
pub open spec fn be_u32_value(h: Seq<u8>) -> int {
    h[0] * 16777216 + h[1] * 65536 + h[2] * 256 + h[3]
}

/// Why a lane's byte stream cannot go on.
#[derive(Debug, Clone, Copy, PartialEq, Eq, Structural)]
pub enum FrameError {
    /// The header declares more than [`MAX_FRAME_LEN`] bytes.
    Oversized,
    /// The payload is not the encoding of a packet.
    Malformed(DecodeError),
}

/// What the start of a lane's buffered bytes holds.
pub open spec fn spec_parse_frame(b: Seq<u8>) -> Result<Option<(PacketView, int)>, FrameError> {
    if b.len() < 4 {
        Ok(None)
    } else {
        let n = be_u32_value(b.subrange(0, 4));
        if n > MAX_FRAME_LEN {
            Err(FrameError::Oversized)
        } else if b.len() < 4 + n {
            Ok(None)
        } else {
            match dec_packet(b.subrange(4, 4 + n)) {
                Some(p) => Ok(Some((p, 4 + n))),
                None => Err(FrameError::Malformed(DecodeError)),
            }
        }
    }
}

/// Frames `payload`: its length as four big-endian bytes, then the payload.
pub fn encode_frame(payload: &[u8]) -> (r: Vec<u8>)
    requires
        payload@.len() <= u32::MAX,
    ensures
        r@ == be_u32_bytes(payload@.len() as u32) + payload@,
{
    let n = payload.len() as u32;
    let mut out: Vec<u8> = Vec::new();
    out.push((n / 16777216) as u8);
    out.push(((n / 65536) % 256) as u8);
    out.push(((n / 256) % 256) as u8);
    out.push((n % 256) as u8);
    let mut body = slice_to_vec(payload);
    out.append(&mut body);
    assert(out@ =~= be_u32_bytes(n) + payload@);
    out
}

/// Reads one frame from the start of `buf`: `Ok(None)` while it is still
/// incomplete, else the packet and the number of bytes it took, or the
/// error that ends the lane.
pub fn parse_frame(buf: &[u8]) -> (r: Result<Option<(Packet, usize)>, FrameError>)
    ensures
        match (r, spec_parse_frame(buf@)) {
            (Ok(None), Ok(None)) => true,
            (Ok(Some((p, k))), Ok(Some((q, m)))) => p@ == q && k == m,
            (Err(e), Err(f)) => e == f,
            _ => false,
        },
{
    if buf.len() < 4 {
        return Ok(None);
    }
    let n: u32 = (buf[0] as u32) * 16777216 + (buf[1] as u32) * 65536 + (buf[2] as u32) * 256
        + buf[3] as u32;
    assert(n == be_u32_value(buf@.subrange(0, 4)));
    if n > MAX_FRAME_LEN {
        return Err(FrameError::Oversized);
    }
    let n = n as usize;
    if buf.len() - 4 < n {
        return Ok(None);
    }
    match Packet::from_slice(slice_subrange(buf, 4, 4 + n)) {
        Ok(p) => Ok(Some((p, 4 + n))),
        Err(e) => Err(FrameError::Malformed(e)),
    }
}

/// A frame's header gives back the length it was made from.
pub proof fn lemma_frame_header(n: u32)
    ensures
        be_u32_value(be_u32_bytes(n)) == n,
{
    let h = be_u32_bytes(n);
    assert(n == (n / 16777216) * 16777216 + ((n / 65536) % 256) * 65536 + ((n / 256) % 256) * 256
        + n % 256) by (nonlinear_arith);
}

} // verus!
