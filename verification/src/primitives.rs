//! Fixed-width primitives: big-endian signed and unsigned integers, booleans
//! and UUIDs, each with a spec-level encoding, an executable writer that
//! appends exactly that encoding, and an executable reader whose result is
//! pinned down by a spec-level decoder.

use vstd::prelude::*;
use crate::errors::DecodeError;

verus! {

/// Relates the result of an executable reader to the spec-level decoder:
/// the same value, position and error, case by case.
pub open spec fn matches_dec<T>(
    r: Result<(T, usize), DecodeError>,
    d: Result<(T, int), DecodeError>,
) -> bool {
    match r {
        Ok((v, n)) => d == Ok::<(T, int), DecodeError>((v, n as int)),
        Err(e) => d == Err::<(T, int), DecodeError>(e),
    }
}

/// The unsigned reinterpretation (two's complement) of an `i8`.
pub open spec fn u8_of_i8(x: i8) -> u8 {
    if x >= 0 {
        x as u8
    } else {
        (x + 0x100) as u8
    }
}

/// The unsigned reinterpretation (two's complement) of an `i16`.
pub open spec fn u16_of_i16(x: i16) -> u16 {
    if x >= 0 {
        x as u16
    } else {
        (x + 0x1_0000) as u16
    }
}

/// The unsigned reinterpretation (two's complement) of an `i32`.
pub open spec fn u32_of_i32(x: i32) -> u32 {
    if x >= 0 {
        x as u32
    } else {
        (x + 0x1_0000_0000) as u32
    }
}

/// The unsigned reinterpretation (two's complement) of an `i64`.
pub open spec fn u64_of_i64(x: i64) -> u64 {
    if x >= 0 {
        x as u64
    } else {
        (x + 0x1_0000_0000_0000_0000) as u64
    }
}

/// The signed value whose two's complement representation is `x`.
pub open spec fn i16_of_u16(x: u16) -> i16 {
    if x < 0x8000 {
        x as i16
    } else {
        (x - 0x1_0000) as i16
    }
}

/// The signed value whose two's complement representation is `x`.
pub open spec fn i32_of_u32(x: u32) -> i32 {
    if x < 0x8000_0000 {
        x as i32
    } else {
        (x - 0x1_0000_0000) as i32
    }
}

/// The signed value whose two's complement representation is `x`.
pub open spec fn i64_of_u64(x: u64) -> i64 {
    if x < 0x8000_0000_0000_0000 {
        x as i64
    } else {
        (x - 0x1_0000_0000_0000_0000) as i64
    }
}

/// The signed value whose two's complement representation is `x`.
pub open spec fn i8_of_u8(x: u8) -> i8 {
    if x < 0x80 {
        x as i8
    } else {
        (x - 0x100) as i8
    }
}

/// Big-endian bytes of a `u16`.
pub open spec fn enc_u16(x: u16) -> Seq<u8> {
    seq![(x / 0x100) as u8, (x % 0x100) as u8]
}

/// Big-endian bytes of a `u32`.
pub open spec fn enc_u32(x: u32) -> Seq<u8> {
    seq![
        (x / 0x100_0000) as u8,
        ((x / 0x1_0000) % 0x100) as u8,
        ((x / 0x100) % 0x100) as u8,
        (x % 0x100) as u8,
    ]
}

/// Big-endian bytes of a `u64`.
pub open spec fn enc_u64(x: u64) -> Seq<u8> {
    seq![
        (x / 0x100_0000_0000_0000) as u8,
        ((x / 0x1_0000_0000_0000) % 0x100) as u8,
        ((x / 0x100_0000_0000) % 0x100) as u8,
        ((x / 0x1_0000_0000) % 0x100) as u8,
        ((x / 0x100_0000) % 0x100) as u8,
        ((x / 0x1_0000) % 0x100) as u8,
        ((x / 0x100) % 0x100) as u8,
        (x % 0x100) as u8,
    ]
}

/// One byte holding an `i8`.
pub open spec fn enc_i8(x: i8) -> Seq<u8> {
    seq![u8_of_i8(x)]
}

/// Big-endian two's complement bytes of an `i16`.
pub open spec fn enc_i16(x: i16) -> Seq<u8> {
    enc_u16(u16_of_i16(x))
}

/// Big-endian two's complement bytes of an `i32`.
pub open spec fn enc_i32(x: i32) -> Seq<u8> {
    enc_u32(u32_of_i32(x))
}

/// Big-endian two's complement bytes of an `i64`.
pub open spec fn enc_i64(x: i64) -> Seq<u8> {
    enc_u64(u64_of_i64(x))
}

/// One byte: 1 for true, 0 for false.
pub open spec fn enc_bool(b: bool) -> Seq<u8> {
    seq![if b { 1u8 } else { 0u8 }]
}

/// Sixteen big-endian bytes of a UUID held as a `u128`.
pub open spec fn enc_uuid(x: u128) -> Seq<u8> {
    enc_u64((x / 0x1_0000_0000_0000_0000) as u64) + enc_u64((x % 0x1_0000_0000_0000_0000) as u64)
}

/// Spec-level decoder for a big-endian `u16` at `pos`.
pub open spec fn dec_u16(s: Seq<u8>, pos: int) -> Result<(u16, int), DecodeError> {
    if 0 <= pos && pos + 2 <= s.len() {
        Ok(((s[pos] * 0x100 + s[pos + 1]) as u16, pos + 2))
    } else {
        Err(DecodeError::UnexpectedEof)
    }
}

/// Spec-level decoder for a big-endian `u32` at `pos`.
pub open spec fn dec_u32(s: Seq<u8>, pos: int) -> Result<(u32, int), DecodeError> {
    if 0 <= pos && pos + 4 <= s.len() {
        Ok(
            (
                (s[pos] * 0x100_0000 + s[pos + 1] * 0x1_0000 + s[pos + 2] * 0x100 + s[pos
                    + 3]) as u32,
                pos + 4,
            ),
        )
    } else {
        Err(DecodeError::UnexpectedEof)
    }
}

/// Spec-level decoder for a big-endian `u64` at `pos`.
pub open spec fn dec_u64(s: Seq<u8>, pos: int) -> Result<(u64, int), DecodeError> {
    if 0 <= pos && pos + 8 <= s.len() {
        Ok(
            (
                (s[pos] * 0x100_0000_0000_0000 + s[pos + 1] * 0x1_0000_0000_0000 + s[pos + 2]
                    * 0x100_0000_0000 + s[pos + 3] * 0x1_0000_0000 + s[pos + 4] * 0x100_0000 + s[pos
                    + 5] * 0x1_0000 + s[pos + 6] * 0x100 + s[pos + 7]) as u64,
                pos + 8,
            ),
        )
    } else {
        Err(DecodeError::UnexpectedEof)
    }
}

/// Spec-level decoder for an `i8` at `pos`.
pub open spec fn dec_i8(s: Seq<u8>, pos: int) -> Result<(i8, int), DecodeError> {
    if 0 <= pos && pos + 1 <= s.len() {
        Ok((i8_of_u8(s[pos]), pos + 1))
    } else {
        Err(DecodeError::UnexpectedEof)
    }
}

/// Spec-level decoder for a big-endian `i16` at `pos`.
pub open spec fn dec_i16(s: Seq<u8>, pos: int) -> Result<(i16, int), DecodeError> {
    match dec_u16(s, pos) {
        Ok((u, p)) => Ok((i16_of_u16(u), p)),
        Err(e) => Err(e),
    }
}

/// Spec-level decoder for a big-endian `i32` at `pos`.
pub open spec fn dec_i32(s: Seq<u8>, pos: int) -> Result<(i32, int), DecodeError> {
    match dec_u32(s, pos) {
        Ok((u, p)) => Ok((i32_of_u32(u), p)),
        Err(e) => Err(e),
    }
}

/// Spec-level decoder for a big-endian `i64` at `pos`.
pub open spec fn dec_i64(s: Seq<u8>, pos: int) -> Result<(i64, int), DecodeError> {
    match dec_u64(s, pos) {
        Ok((u, p)) => Ok((i64_of_u64(u), p)),
        Err(e) => Err(e),
    }
}

/// Spec-level decoder for a boolean at `pos`: any non-zero byte is true.
pub open spec fn dec_bool(s: Seq<u8>, pos: int) -> Result<(bool, int), DecodeError> {
    if 0 <= pos && pos + 1 <= s.len() {
        Ok((s[pos] != 0, pos + 1))
    } else {
        Err(DecodeError::UnexpectedEof)
    }
}

/// Spec-level decoder for a sixteen-byte big-endian UUID at `pos`.
pub open spec fn dec_uuid(s: Seq<u8>, pos: int) -> Result<(u128, int), DecodeError> {
    match dec_u64(s, pos) {
        Ok((hi, p1)) => match dec_u64(s, p1) {
            Ok((lo, p2)) => Ok(((hi * 0x1_0000_0000_0000_0000 + lo) as u128, p2)),
            Err(e) => Err(e),
        },
        Err(e) => Err(e),
    }
}

/// Appends the big-endian bytes of `x`.
pub fn write_u16(out: &mut Vec<u8>, x: u16)
    ensures
        final(out)@ == old(out)@ + enc_u16(x),
{
    out.push((x / 0x100) as u8);
    out.push((x % 0x100) as u8);
    assert(out@ =~= old(out)@ + enc_u16(x));
}

/// Appends the big-endian bytes of `x`.
pub fn write_u32(out: &mut Vec<u8>, x: u32)
    ensures
        final(out)@ == old(out)@ + enc_u32(x),
{
    out.push((x / 0x100_0000) as u8);
    out.push(((x / 0x1_0000) % 0x100) as u8);
    out.push(((x / 0x100) % 0x100) as u8);
    out.push((x % 0x100) as u8);
    assert(out@ =~= old(out)@ + enc_u32(x));
}

/// Appends the big-endian bytes of `x`.
pub fn write_u64(out: &mut Vec<u8>, x: u64)
    ensures
        final(out)@ == old(out)@ + enc_u64(x),
{
    out.push((x / 0x100_0000_0000_0000) as u8);
    out.push(((x / 0x1_0000_0000_0000) % 0x100) as u8);
    out.push(((x / 0x100_0000_0000) % 0x100) as u8);
    out.push(((x / 0x1_0000_0000) % 0x100) as u8);
    out.push(((x / 0x100_0000) % 0x100) as u8);
    out.push(((x / 0x1_0000) % 0x100) as u8);
    out.push(((x / 0x100) % 0x100) as u8);
    out.push((x % 0x100) as u8);
    assert(out@ =~= old(out)@ + enc_u64(x));
}

/// Appends the byte of `x`.
pub fn write_i8(out: &mut Vec<u8>, x: i8)
    ensures
        final(out)@ == old(out)@ + enc_i8(x),
{
    let u: u8 = if x >= 0 {
        x as u8
    } else {
        ((x as i16) + 0x100) as u8
    };
    out.push(u);
    assert(out@ =~= old(out)@ + enc_i8(x));
}

/// Appends the big-endian two's complement bytes of `x`.
pub fn write_i16(out: &mut Vec<u8>, x: i16)
    ensures
        final(out)@ == old(out)@ + enc_i16(x),
{
    let u: u16 = if x >= 0 {
        x as u16
    } else {
        ((x as i32) + 0x1_0000) as u16
    };
    write_u16(out, u);
}

/// Appends the big-endian two's complement bytes of `x`.
pub fn write_i32(out: &mut Vec<u8>, x: i32)
    ensures
        final(out)@ == old(out)@ + enc_i32(x),
{
    let u: u32 = if x >= 0 {
        x as u32
    } else {
        ((x as i64) + 0x1_0000_0000) as u32
    };
    write_u32(out, u);
}

/// Appends the big-endian two's complement bytes of `x`.
pub fn write_i64(out: &mut Vec<u8>, x: i64)
    ensures
        final(out)@ == old(out)@ + enc_i64(x),
{
    let u: u64 = if x >= 0 {
        x as u64
    } else {
        ((x as i128) + 0x1_0000_0000_0000_0000) as u64
    };
    write_u64(out, u);
}

/// Appends 1 for true, 0 for false.
pub fn write_bool(out: &mut Vec<u8>, b: bool)
    ensures
        final(out)@ == old(out)@ + enc_bool(b),
{
    out.push(if b { 1u8 } else { 0u8 });
    assert(out@ =~= old(out)@ + enc_bool(b));
}

/// Appends the sixteen big-endian bytes of a UUID held as a `u128`.
pub fn write_uuid(out: &mut Vec<u8>, x: u128)
    ensures
        final(out)@ == old(out)@ + enc_uuid(x),
{
    write_u64(out, (x / 0x1_0000_0000_0000_0000) as u64);
    write_u64(out, (x % 0x1_0000_0000_0000_0000) as u64);
    assert(out@ =~= old(out)@ + enc_uuid(x));
}

/// Reads a big-endian `u16` at `pos`.
pub fn read_u16(buf: &Vec<u8>, pos: usize) -> (r: Result<(u16, usize), DecodeError>)
    ensures
        matches_dec(r, dec_u16(buf@, pos as int)),
{
    if pos < buf.len() && buf.len() - pos >= 2 {
        let v: u16 = (buf[pos] as u16) * 0x100 + (buf[pos + 1] as u16);
        Ok((v, pos + 2))
    } else {
        Err(DecodeError::UnexpectedEof)
    }
}

/// Reads a big-endian `u32` at `pos`.
pub fn read_u32(buf: &Vec<u8>, pos: usize) -> (r: Result<(u32, usize), DecodeError>)
    ensures
        matches_dec(r, dec_u32(buf@, pos as int)),
{
    if pos < buf.len() && buf.len() - pos >= 4 {
        let v: u32 = (buf[pos] as u32) * 0x100_0000 + (buf[pos + 1] as u32) * 0x1_0000 + (buf[pos
            + 2] as u32) * 0x100 + (buf[pos + 3] as u32);
        Ok((v, pos + 4))
    } else {
        Err(DecodeError::UnexpectedEof)
    }
}

/// Reads a big-endian `u64` at `pos`.
pub fn read_u64(buf: &Vec<u8>, pos: usize) -> (r: Result<(u64, usize), DecodeError>)
    ensures
        matches_dec(r, dec_u64(buf@, pos as int)),
{
    if pos < buf.len() && buf.len() - pos >= 8 {
        let v: u64 = (buf[pos] as u64) * 0x100_0000_0000_0000 + (buf[pos + 1] as u64)
            * 0x1_0000_0000_0000 + (buf[pos + 2] as u64) * 0x100_0000_0000 + (buf[pos + 3] as u64)
            * 0x1_0000_0000 + (buf[pos + 4] as u64) * 0x100_0000 + (buf[pos + 5] as u64) * 0x1_0000
            + (buf[pos + 6] as u64) * 0x100 + (buf[pos + 7] as u64);
        Ok((v, pos + 8))
    } else {
        Err(DecodeError::UnexpectedEof)
    }
}

/// Reads an `i8` at `pos`.
pub fn read_i8(buf: &Vec<u8>, pos: usize) -> (r: Result<(i8, usize), DecodeError>)
    ensures
        matches_dec(r, dec_i8(buf@, pos as int)),
{
    if pos < buf.len() {
        let u = buf[pos];
        let v: i8 = if u < 0x80 {
            u as i8
        } else {
            ((u as i16) - 0x100) as i8
        };
        Ok((v, pos + 1))
    } else {
        Err(DecodeError::UnexpectedEof)
    }
}

/// Reads a big-endian `i16` at `pos`.
pub fn read_i16(buf: &Vec<u8>, pos: usize) -> (r: Result<(i16, usize), DecodeError>)
    ensures
        matches_dec(r, dec_i16(buf@, pos as int)),
{
    match read_u16(buf, pos) {
        Ok((u, p)) => {
            let v: i16 = if u < 0x8000 {
                u as i16
            } else {
                ((u as i32) - 0x1_0000) as i16
            };
            Ok((v, p))
        },
        Err(e) => Err(e),
    }
}

/// Reads a big-endian `i32` at `pos`.
pub fn read_i32(buf: &Vec<u8>, pos: usize) -> (r: Result<(i32, usize), DecodeError>)
    ensures
        matches_dec(r, dec_i32(buf@, pos as int)),
{
    match read_u32(buf, pos) {
        Ok((u, p)) => {
            let v: i32 = if u < 0x8000_0000 {
                u as i32
            } else {
                ((u as i64) - 0x1_0000_0000) as i32
            };
            Ok((v, p))
        },
        Err(e) => Err(e),
    }
}

/// Reads a big-endian `i64` at `pos`.
pub fn read_i64(buf: &Vec<u8>, pos: usize) -> (r: Result<(i64, usize), DecodeError>)
    ensures
        matches_dec(r, dec_i64(buf@, pos as int)),
{
    match read_u64(buf, pos) {
        Ok((u, p)) => {
            let v: i64 = if u < 0x8000_0000_0000_0000 {
                u as i64
            } else {
                ((u as i128) - 0x1_0000_0000_0000_0000) as i64
            };
            Ok((v, p))
        },
        Err(e) => Err(e),
    }
}

/// Reads a boolean at `pos`: any non-zero byte is true.
pub fn read_bool(buf: &Vec<u8>, pos: usize) -> (r: Result<(bool, usize), DecodeError>)
    ensures
        matches_dec(r, dec_bool(buf@, pos as int)),
{
    if pos < buf.len() {
        Ok((buf[pos] != 0, pos + 1))
    } else {
        Err(DecodeError::UnexpectedEof)
    }
}

/// Reads a sixteen-byte big-endian UUID at `pos`.
pub fn read_uuid(buf: &Vec<u8>, pos: usize) -> (r: Result<(u128, usize), DecodeError>)
    ensures
        matches_dec(r, dec_uuid(buf@, pos as int)),
{
    match read_u64(buf, pos) {
        Ok((hi, p1)) => match read_u64(buf, p1) {
            Ok((lo, p2)) => Ok(((hi as u128) * 0x1_0000_0000_0000_0000 + (lo as u128), p2)),
            Err(e) => Err(e),
        },
        Err(e) => Err(e),
    }
}

/// Round trip for `u16`: decoding right after a prefix followed by the
/// encoding of `x` yields `x` and stops right after it.
pub proof fn lemma_u16_round_trip(prefix: Seq<u8>, x: u16, suffix: Seq<u8>)
    ensures
        dec_u16(prefix + enc_u16(x) + suffix, prefix.len() as int) == Ok::<(u16, int), DecodeError>(
            (x, prefix.len() as int + 2),
        ),
{
    let s = prefix + enc_u16(x) + suffix;
    let p = prefix.len() as int;
    assert(s[p] == x / 0x100 && s[p + 1] == x % 0x100);
    assert((x / 0x100) * 0x100 + (x % 0x100) == x) by (bit_vector);
}

/// Round trip for `u32`.
pub proof fn lemma_u32_round_trip(prefix: Seq<u8>, x: u32, suffix: Seq<u8>)
    ensures
        dec_u32(prefix + enc_u32(x) + suffix, prefix.len() as int) == Ok::<(u32, int), DecodeError>(
            (x, prefix.len() as int + 4),
        ),
{
    let s = prefix + enc_u32(x) + suffix;
    let p = prefix.len() as int;
    assert(s[p] == x / 0x100_0000 && s[p + 1] == (x / 0x1_0000) % 0x100 && s[p + 2] == (x / 0x100)
        % 0x100 && s[p + 3] == x % 0x100);
    assert((x / 0x100_0000) * 0x100_0000 + ((x / 0x1_0000) % 0x100) * 0x1_0000 + ((x / 0x100)
        % 0x100) * 0x100 + (x % 0x100) == x) by (bit_vector);
}

/// Round trip for `u64`.
pub proof fn lemma_u64_round_trip(prefix: Seq<u8>, x: u64, suffix: Seq<u8>)
    ensures
        dec_u64(prefix + enc_u64(x) + suffix, prefix.len() as int) == Ok::<(u64, int), DecodeError>(
            (x, prefix.len() as int + 8),
        ),
{
    let s = prefix + enc_u64(x) + suffix;
    let p = prefix.len() as int;
    assert(s[p] == x / 0x100_0000_0000_0000 && s[p + 1] == (x / 0x1_0000_0000_0000) % 0x100 && s[p
        + 2] == (x / 0x100_0000_0000) % 0x100 && s[p + 3] == (x / 0x1_0000_0000) % 0x100 && s[p + 4]
        == (x / 0x100_0000) % 0x100 && s[p + 5] == (x / 0x1_0000) % 0x100 && s[p + 6] == (x / 0x100)
        % 0x100 && s[p + 7] == x % 0x100);
    assert((x / 0x100_0000_0000_0000) * 0x100_0000_0000_0000 + ((x / 0x1_0000_0000_0000) % 0x100)
        * 0x1_0000_0000_0000 + ((x / 0x100_0000_0000) % 0x100) * 0x100_0000_0000 + ((x
        / 0x1_0000_0000) % 0x100) * 0x1_0000_0000 + ((x / 0x100_0000) % 0x100) * 0x100_0000 + ((x
        / 0x1_0000) % 0x100) * 0x1_0000 + ((x / 0x100) % 0x100) * 0x100 + (x % 0x100) == x)
        by (bit_vector);
}

/// Round trip for `i16`.
pub proof fn lemma_i16_round_trip(prefix: Seq<u8>, x: i16, suffix: Seq<u8>)
    ensures
        dec_i16(prefix + enc_i16(x) + suffix, prefix.len() as int) == Ok::<(i16, int), DecodeError>(
            (x, prefix.len() as int + 2),
        ),
{
    lemma_u16_round_trip(prefix, u16_of_i16(x), suffix);
}

/// Round trip for `i32`.
pub proof fn lemma_i32_round_trip(prefix: Seq<u8>, x: i32, suffix: Seq<u8>)
    ensures
        dec_i32(prefix + enc_i32(x) + suffix, prefix.len() as int) == Ok::<(i32, int), DecodeError>(
            (x, prefix.len() as int + 4),
        ),
{
    lemma_u32_round_trip(prefix, u32_of_i32(x), suffix);
}

/// Round trip for `i64`.
pub proof fn lemma_i64_round_trip(prefix: Seq<u8>, x: i64, suffix: Seq<u8>)
    ensures
        dec_i64(prefix + enc_i64(x) + suffix, prefix.len() as int) == Ok::<(i64, int), DecodeError>(
            (x, prefix.len() as int + 8),
        ),
{
    lemma_u64_round_trip(prefix, u64_of_i64(x), suffix);
}

/// Round trip for `i8`.
pub proof fn lemma_i8_round_trip(prefix: Seq<u8>, x: i8, suffix: Seq<u8>)
    ensures
        dec_i8(prefix + enc_i8(x) + suffix, prefix.len() as int) == Ok::<(i8, int), DecodeError>(
            (x, prefix.len() as int + 1),
        ),
{
}

/// Round trip for booleans written by this library.
pub proof fn lemma_bool_round_trip(prefix: Seq<u8>, b: bool, suffix: Seq<u8>)
    ensures
        dec_bool(prefix + enc_bool(b) + suffix, prefix.len() as int) == Ok::<
            (bool, int),
            DecodeError,
        >((b, prefix.len() as int + 1)),
{
}

/// Round trip for UUIDs.
pub proof fn lemma_uuid_round_trip(prefix: Seq<u8>, x: u128, suffix: Seq<u8>)
    ensures
        dec_uuid(prefix + enc_uuid(x) + suffix, prefix.len() as int) == Ok::<
            (u128, int),
            DecodeError,
        >((x, prefix.len() as int + 16)),
{
    let s = prefix + enc_uuid(x) + suffix;
    let p = prefix.len() as int;
    let hi = (x / 0x1_0000_0000_0000_0000) as u64;
    let lo = (x % 0x1_0000_0000_0000_0000) as u64;
    assert(s =~= prefix + enc_u64(hi) + (enc_u64(lo) + suffix));
    lemma_u64_round_trip(prefix, hi, enc_u64(lo) + suffix);
    assert(s =~= (prefix + enc_u64(hi)) + enc_u64(lo) + suffix);
    lemma_u64_round_trip(prefix + enc_u64(hi), lo, suffix);
}

} // verus!
