//! Framing: every request and response on the wire is prefixed by the
//! big-endian `i32` byte length of what follows. The writer puts down a
//! four-byte placeholder, lets the header and body follow, then patches the
//! length in; the reader takes the length and hands back exactly that many
//! bytes.

use vstd::prelude::*;
use crate::errors::DecodeError;
use crate::primitives::{enc_i32, dec_i32};
use crate::strings::copy_range;

verus! {

/// Appends the four-byte length placeholder that `patch_frame_length`
/// later overwrites.
pub fn begin_frame(out: &mut Vec<u8>)
    ensures
        final(out)@ == old(out)@ + seq![0u8, 0u8, 0u8, 0u8],
{
    out.push(0);
    out.push(0);
    out.push(0);
    out.push(0);
    assert(out@ =~= old(out)@ + seq![0u8, 0u8, 0u8, 0u8]);
}

/// Overwrites the first four bytes of `buf` with the big-endian length of
/// everything after them; the rest of the buffer is untouched.
pub fn patch_frame_length(buf: &mut Vec<u8>)
    requires
        old(buf)@.len() >= 4,
        old(buf)@.len() - 4 <= 0x7FFF_FFFF,
    ensures
        final(buf)@ == enc_i32((old(buf)@.len() - 4) as i32) + old(buf)@.subrange(
            4,
            old(buf)@.len() as int,
        ),
        final(buf)@.len() == old(buf)@.len(),
{
    let n: u32 = (buf.len() - 4) as u32;
    let b0: u8 = (n / 0x100_0000) as u8;
    let b1: u8 = ((n / 0x1_0000) % 0x100) as u8;
    let b2: u8 = ((n / 0x100) % 0x100) as u8;
    let b3: u8 = (n % 0x100) as u8;
    buf[0] = b0;
    buf[1] = b1;
    buf[2] = b2;
    buf[3] = b3;
    assert(buf@ =~= enc_i32((old(buf)@.len() - 4) as i32) + old(buf)@.subrange(
        4,
        old(buf)@.len() as int,
    ));
}

/// Spec-level decoder for a frame at `pos`: the length, then that many
/// bytes of header and body.
pub open spec fn dec_frame(s: Seq<u8>, pos: int) -> Result<(Seq<u8>, int), DecodeError> {
    match dec_i32(s, pos) {
        Ok((n, p1)) => if n < 0 {
            Err(DecodeError::Malformed)
        } else if p1 + n > s.len() {
            Err(DecodeError::UnexpectedEof)
        } else {
            Ok((s.subrange(p1, p1 + n), p1 + n))
        },
        Err(e) => Err(e),
    }
}

/// Reads a frame at `pos`: its payload copied into a fresh buffer, and the
/// position right after it.
pub fn read_frame(buf: &Vec<u8>, pos: usize) -> (r: Result<(Vec<u8>, usize), DecodeError>)
    ensures
        match r {
            Ok((body, n)) => dec_frame(buf@, pos as int) == Ok::<(Seq<u8>, int), DecodeError>(
                (body@, n as int),
            ),
            Err(e) => dec_frame(buf@, pos as int) == Err::<(Seq<u8>, int), DecodeError>(e),
        },
{
    match crate::primitives::read_i32(buf, pos) {
        Ok((n, p1)) => {
            if n < 0 {
                return Err(DecodeError::Malformed);
            }
            let count = n as usize;
            if count > buf.len() - p1 {
                return Err(DecodeError::UnexpectedEof);
            }
            let body = copy_range(buf, p1, count);
            Ok((body, p1 + count))
        },
        Err(e) => Err(e),
    }
}

/// Round trip for frames: a body framed under its own length reads back
/// unchanged.
pub proof fn lemma_frame_round_trip(prefix: Seq<u8>, body: Seq<u8>, suffix: Seq<u8>)
    requires
        body.len() <= 0x7FFF_FFFF,
    ensures
        dec_frame(prefix + (enc_i32(body.len() as i32) + body) + suffix, prefix.len() as int)
            == Ok::<(Seq<u8>, int), DecodeError>(
            (body, prefix.len() as int + 4 + body.len() as int),
        ),
{
    let s = prefix + (enc_i32(body.len() as i32) + body) + suffix;
    let p = prefix.len() as int;
    assert(s =~= prefix + enc_i32(body.len() as i32) + (body + suffix));
    crate::primitives::lemma_i32_round_trip(prefix, body.len() as i32, body + suffix);
    assert(s.subrange(p + 4, p + 4 + body.len() as int) =~= body);
}

} // verus!
