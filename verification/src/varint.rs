//! Variable-length integers: unsigned base-128 varints (little-endian with a
//! continuation bit) and ZigZag-mapped signed varints.

use vstd::prelude::*;
use vstd::arithmetic::div_mod::lemma_fundamental_div_mod;
use crate::errors::DecodeError;
use crate::primitives::matches_dec;

verus! {

/// Base-128 little-endian encoding with a continuation bit: the low seven
/// bits of each byte carry the value, the high bit says more bytes follow.
pub open spec fn enc_uvarint(x: nat) -> Seq<u8>
    decreases x,
{
    if x < 0x80 {
        seq![x as u8]
    } else {
        seq![(0x80 + x % 0x80) as u8] + enc_uvarint(x / 0x80)
    }
}

/// The index right after the first byte at or after `pos` without the
/// continuation bit, or -1 when every byte up to the end has it set.
pub open spec fn uvarint_end(s: Seq<u8>, pos: int) -> int
    decreases s.len() - pos,
{
    if pos < 0 || pos >= s.len() {
        -1
    } else if s[pos] < 0x80 {
        pos + 1
    } else {
        uvarint_end(s, pos + 1)
    }
}

/// The value carried by the varint bytes `s[pos .. end]`.
pub open spec fn uvarint_val(s: Seq<u8>, pos: int, end: int) -> nat
    decreases end - pos,
{
    if pos < 0 || pos >= end || end > s.len() {
        0
    } else {
        ((s[pos] % 0x80) + 0x80 * uvarint_val(s, pos + 1, end)) as nat
    }
}

/// Spec-level decoder for an unsigned 32-bit varint at `pos`: at most five
/// bytes, and the fifth may carry only four bits.
pub open spec fn dec_uvarint32(s: Seq<u8>, pos: int) -> Result<(u32, int), DecodeError> {
    let e = uvarint_end(s, pos);
    if e == -1 {
        if s.len() - pos < 5 {
            Err(DecodeError::UnexpectedEof)
        } else {
            Err(DecodeError::Malformed)
        }
    } else if e - pos > 5 || (e - pos == 5 && s[pos + 4] >= 0x10) {
        Err(DecodeError::Malformed)
    } else {
        Ok((uvarint_val(s, pos, e) as u32, e))
    }
}

/// Spec-level decoder for an unsigned 64-bit varint at `pos`: at most ten
/// bytes, and the tenth may carry only one bit.
pub open spec fn dec_uvarint64(s: Seq<u8>, pos: int) -> Result<(u64, int), DecodeError> {
    let e = uvarint_end(s, pos);
    if e == -1 {
        if s.len() - pos < 10 {
            Err(DecodeError::UnexpectedEof)
        } else {
            Err(DecodeError::Malformed)
        }
    } else if e - pos > 10 || (e - pos == 10 && s[pos + 9] >= 0x2) {
        Err(DecodeError::Malformed)
    } else {
        Ok((uvarint_val(s, pos, e) as u64, e))
    }
}

/// The ZigZag image of an `i32`: 0, -1, 1, -2, ... map to 0, 1, 2, 3, ...
pub open spec fn zigzag32(x: i32) -> u32 {
    if x >= 0 {
        (2 * x) as u32
    } else {
        (-2 * x - 1) as u32
    }
}

/// The ZigZag image of an `i64`.
pub open spec fn zigzag64(x: i64) -> u64 {
    if x >= 0 {
        (2 * x) as u64
    } else {
        (-2 * x - 1) as u64
    }
}

/// The `i32` whose ZigZag image is `u`.
pub open spec fn unzigzag32(u: u32) -> i32 {
    if u % 2 == 0 {
        (u / 2) as i32
    } else {
        (-1 - (u / 2)) as i32
    }
}

/// The `i64` whose ZigZag image is `u`.
pub open spec fn unzigzag64(u: u64) -> i64 {
    if u % 2 == 0 {
        (u / 2) as i64
    } else {
        (-1 - (u / 2)) as i64
    }
}

/// ZigZag-over-varint encoding of an `i32`.
pub open spec fn enc_varint32(x: i32) -> Seq<u8> {
    enc_uvarint(zigzag32(x) as nat)
}

/// ZigZag-over-varint encoding of an `i64`.
pub open spec fn enc_varint64(x: i64) -> Seq<u8> {
    enc_uvarint(zigzag64(x) as nat)
}

/// Spec-level decoder for a ZigZag 32-bit varint at `pos`.
pub open spec fn dec_varint32(s: Seq<u8>, pos: int) -> Result<(i32, int), DecodeError> {
    match dec_uvarint32(s, pos) {
        Ok((u, p)) => Ok((unzigzag32(u), p)),
        Err(e) => Err(e),
    }
}

/// Spec-level decoder for a ZigZag 64-bit varint at `pos`.
pub open spec fn dec_varint64(s: Seq<u8>, pos: int) -> Result<(i64, int), DecodeError> {
    match dec_uvarint64(s, pos) {
        Ok((u, p)) => Ok((unzigzag64(u), p)),
        Err(e) => Err(e),
    }
}

/// Appends the unsigned varint bytes of `x`.
pub fn write_uvarint32(out: &mut Vec<u8>, x: u32)
    ensures
        final(out)@ == old(out)@ + enc_uvarint(x as nat),
{
    let mut v: u32 = x;
    while v >= 0x80
        invariant
            old(out)@ + enc_uvarint(x as nat) == out@ + enc_uvarint(v as nat),
        decreases v,
    {
        out.push((0x80 + (v % 0x80)) as u8);
        assert(out@ + enc_uvarint((v / 0x80) as nat) =~= old(out)@ + enc_uvarint(x as nat));
        v = v / 0x80;
    }
    out.push(v as u8);
    assert(out@ =~= old(out)@ + enc_uvarint(x as nat));
}

/// Appends the unsigned varint bytes of `x`.
pub fn write_uvarint64(out: &mut Vec<u8>, x: u64)
    ensures
        final(out)@ == old(out)@ + enc_uvarint(x as nat),
{
    let mut v: u64 = x;
    while v >= 0x80
        invariant
            old(out)@ + enc_uvarint(x as nat) == out@ + enc_uvarint(v as nat),
        decreases v,
    {
        out.push((0x80 + (v % 0x80)) as u8);
        assert(out@ + enc_uvarint((v / 0x80) as nat) =~= old(out)@ + enc_uvarint(x as nat));
        v = v / 0x80;
    }
    out.push(v as u8);
    assert(out@ =~= old(out)@ + enc_uvarint(x as nat));
}

/// Appends the ZigZag varint bytes of `x`.
pub fn write_varint32(out: &mut Vec<u8>, x: i32)
    ensures
        final(out)@ == old(out)@ + enc_varint32(x),
{
    let u: u32 = if x >= 0 {
        (x as u32) * 2
    } else {
        let nx: i64 = -(x as i64);
        ((nx - 1) as u32) * 2 + 1
    };
    assert(u == zigzag32(x));
    write_uvarint32(out, u);
}

/// Appends the ZigZag varint bytes of `x`.
pub fn write_varint64(out: &mut Vec<u8>, x: i64)
    ensures
        final(out)@ == old(out)@ + enc_varint64(x),
{
    let u: u64 = if x >= 0 {
        (x as u64) * 2
    } else {
        let nx: i128 = -(x as i128);
        ((nx - 1) as u64) * 2 + 1
    };
    assert(u == zigzag64(x));
    write_uvarint64(out, u);
}

/// Reads an unsigned 32-bit varint at `pos`.
pub fn read_uvarint32(buf: &Vec<u8>, pos: usize) -> (r: Result<(u32, usize), DecodeError>)
    ensures
        matches_dec(r, dec_uvarint32(buf@, pos as int)),
{
    let len = buf.len();
    let ghost s = buf@;
    let mut value: u32 = 0;
    let mut mult: u32 = 1;
    let mut i: usize = 0;
    loop
        invariant
            buf@ == s,
            len == s.len(),
            0 <= i <= 4,
            mult == pow128(i as nat),
            value == uvarint_val(s, pos as int, pos + i),
            value < pow128(i as nat),
            uvarint_end(s, pos as int) == uvarint_end(s, pos + i),
            forall|j: int| pos <= j < pos + i ==> s[j] >= 0x80,
        decreases 4 - i,
    {
        proof {
            lemma_pow128_values();
            lemma_pow128_mono(i as nat, 4nat);
        }
        if pos >= len || i >= len - pos {
            assert(uvarint_end(s, pos + i) == -1);
            return Err(DecodeError::UnexpectedEof);
        }
        let b = buf[pos + i];
        proof {
            assert(uvarint_end(s, pos + i) == if b < 0x80 {
                pos + i + 1
            } else {
                uvarint_end(s, pos + i + 1)
            });
            lemma_uvarint_val_one(s, pos + i);
            lemma_uvarint_val_split(s, pos as int, pos + i, pos + i + 1);
            lemma_mul_le((b % 0x80) as nat, 0x7fnat, pow128(i as nat));
        }
        if i == 4 {
            if b >= 0x10 {
                proof {
                    if b >= 0x80 {
                        lemma_uvarint_end_bounds(s, pos + 5);
                    }
                }
                return Err(DecodeError::Malformed);
            }
            let v = value + (b as u32) * 0x1000_0000;
            assert(v == uvarint_val(s, pos as int, pos + 5));
            return Ok((v, pos + 5));
        }
        let v = value + ((b % 0x80) as u32) * mult;
        proof {
            assert(((b % 0x80) as u32) * mult == pow128(i as nat) * ((b % 0x80) as nat)) by (
            nonlinear_arith)
                requires
                    mult == pow128(i as nat),
            ;
        }
        assert(v == uvarint_val(s, pos as int, pos + i + 1));
        assert(v < pow128((i + 1) as nat)) by {
            assert(pow128((i + 1) as nat) == 0x80 * pow128(i as nat));
        }
        if b < 0x80 {
            return Ok((v, pos + i + 1));
        }
        value = v;
        proof {
            lemma_pow128_mono(i as nat, 3nat);
        }
        mult = mult * 0x80;
        i = i + 1;
    }
}

/// Reads an unsigned 64-bit varint at `pos`.
pub fn read_uvarint64(buf: &Vec<u8>, pos: usize) -> (r: Result<(u64, usize), DecodeError>)
    ensures
        matches_dec(r, dec_uvarint64(buf@, pos as int)),
{
    let len = buf.len();
    let ghost s = buf@;
    let mut value: u64 = 0;
    let mut mult: u64 = 1;
    let mut i: usize = 0;
    loop
        invariant
            buf@ == s,
            len == s.len(),
            0 <= i <= 9,
            mult == pow128(i as nat),
            value == uvarint_val(s, pos as int, pos + i),
            value < pow128(i as nat),
            uvarint_end(s, pos as int) == uvarint_end(s, pos + i),
            forall|j: int| pos <= j < pos + i ==> s[j] >= 0x80,
        decreases 9 - i,
    {
        proof {
            lemma_pow128_values();
            lemma_pow128_mono(i as nat, 9nat);
        }
        if pos >= len || i >= len - pos {
            assert(uvarint_end(s, pos + i) == -1);
            return Err(DecodeError::UnexpectedEof);
        }
        let b = buf[pos + i];
        proof {
            assert(uvarint_end(s, pos + i) == if b < 0x80 {
                pos + i + 1
            } else {
                uvarint_end(s, pos + i + 1)
            });
            lemma_uvarint_val_one(s, pos + i);
            lemma_uvarint_val_split(s, pos as int, pos + i, pos + i + 1);
            lemma_mul_le((b % 0x80) as nat, 0x7fnat, pow128(i as nat));
        }
        if i == 9 {
            if b >= 0x2 {
                proof {
                    if b >= 0x80 {
                        lemma_uvarint_end_bounds(s, pos + 10);
                    }
                }
                return Err(DecodeError::Malformed);
            }
            let v = value + (b as u64) * 0x8000_0000_0000_0000;
            assert(v == uvarint_val(s, pos as int, pos + 10));
            return Ok((v, pos + 10));
        }
        let v = value + ((b % 0x80) as u64) * mult;
        proof {
            assert(((b % 0x80) as u64) * mult == pow128(i as nat) * ((b % 0x80) as nat)) by (
            nonlinear_arith)
                requires
                    mult == pow128(i as nat),
            ;
        }
        assert(v == uvarint_val(s, pos as int, pos + i + 1));
        assert(v < pow128((i + 1) as nat)) by {
            assert(pow128((i + 1) as nat) == 0x80 * pow128(i as nat));
        }
        if b < 0x80 {
            return Ok((v, pos + i + 1));
        }
        value = v;
        proof {
            lemma_pow128_mono(i as nat, 8nat);
        }
        mult = mult * 0x80;
        i = i + 1;
    }
}

/// `uvarint_end` is either -1 or a position after `pos`, within the bytes.
pub proof fn lemma_uvarint_end_bounds(s: Seq<u8>, pos: int)
    ensures
        uvarint_end(s, pos) == -1 || (pos < uvarint_end(s, pos) <= s.len()),
    decreases s.len() - pos,
{
    if 0 <= pos < s.len() && s[pos] >= 0x80 {
        lemma_uvarint_end_bounds(s, pos + 1);
    }
}

/// The value of a single varint byte range.
pub proof fn lemma_uvarint_val_one(s: Seq<u8>, q: int)
    requires
        0 <= q < s.len(),
    ensures
        uvarint_val(s, q, q + 1) == s[q] % 0x80,
{
    assert(uvarint_val(s, q + 1, q + 1) == 0);
}

/// What a non-negative `uvarint_end` says of the bytes: every byte before it
/// has the continuation bit, the one right before it does not.
pub proof fn lemma_uvarint_end_bytes(s: Seq<u8>, pos: int)
    requires
        0 <= pos,
        uvarint_end(s, pos) != -1,
    ensures
        pos < uvarint_end(s, pos) <= s.len(),
        s[uvarint_end(s, pos) - 1] < 0x80,
        forall|j: int| pos <= j < uvarint_end(s, pos) - 1 ==> s[j] >= 0x80,
    decreases s.len() - pos,
{
    if pos < s.len() && s[pos] >= 0x80 {
        lemma_uvarint_end_bytes(s, pos + 1);
    }
}

/// `pow128` is monotone.
pub proof fn lemma_pow128_mono(i: nat, j: nat)
    requires
        i <= j,
    ensures
        pow128(i) <= pow128(j),
    decreases j,
{
    if i < j {
        lemma_pow128_mono(i, (j - 1) as nat);
        lemma_pow128_pos((j - 1) as nat);
    }
}

/// Multiplication keeps order on the left factor.
pub proof fn lemma_mul_le(a: nat, b: nat, c: nat)
    requires
        a <= b,
    ensures
        a * c <= b * c,
{
    assert(a * c <= b * c) by (nonlinear_arith)
        requires
            a <= b,
    ;
}

/// Reads a ZigZag 32-bit varint at `pos`.
pub fn read_varint32(buf: &Vec<u8>, pos: usize) -> (r: Result<(i32, usize), DecodeError>)
    ensures
        matches_dec(r, dec_varint32(buf@, pos as int)),
{
    match read_uvarint32(buf, pos) {
        Ok((u, p)) => {
            let v: i32 = if u % 2 == 0 {
                (u / 2) as i32
            } else {
                let m: i64 = -1 - ((u / 2) as i64);
                m as i32
            };
            Ok((v, p))
        },
        Err(e) => Err(e),
    }
}

/// Reads a ZigZag 64-bit varint at `pos`.
pub fn read_varint64(buf: &Vec<u8>, pos: usize) -> (r: Result<(i64, usize), DecodeError>)
    ensures
        matches_dec(r, dec_varint64(buf@, pos as int)),
{
    match read_uvarint64(buf, pos) {
        Ok((u, p)) => {
            let v: i64 = if u % 2 == 0 {
                (u / 2) as i64
            } else {
                let m: i128 = -1 - ((u / 2) as i128);
                m as i64
            };
            Ok((v, p))
        },
        Err(e) => Err(e),
    }
}

/// 128 to the power `k`.
pub open spec fn pow128(k: nat) -> nat
    decreases k,
{
    if k == 0 {
        1
    } else {
        0x80 * pow128((k - 1) as nat)
    }
}

/// The small powers of 128 the varint budgets rest on.
pub proof fn lemma_pow128_values()
    ensures
        pow128(0) == 1,
        pow128(1) == 0x80,
        pow128(2) == 0x4000,
        pow128(3) == 0x20_0000,
        pow128(4) == 0x1000_0000,
        pow128(5) == 0x8_0000_0000,
        pow128(6) == 0x400_0000_0000,
        pow128(7) == 0x2_0000_0000_0000,
        pow128(8) == 0x100_0000_0000_0000,
        pow128(9) == 0x8000_0000_0000_0000,
        pow128(10) == 0x40_0000_0000_0000_0000,
{
    assert(pow128(0) == 1);
    assert(pow128(1) == 0x80);
    assert(pow128(2) == 0x4000);
    assert(pow128(3) == 0x20_0000);
    assert(pow128(4) == 0x1000_0000);
    assert(pow128(5) == 0x8_0000_0000);
    assert(pow128(6) == 0x400_0000_0000);
    assert(pow128(7) == 0x2_0000_0000_0000);
    assert(pow128(8) == 0x100_0000_0000_0000);
    assert(pow128(9) == 0x8000_0000_0000_0000);
    assert(pow128(10) == 0x40_0000_0000_0000_0000);
}

pub proof fn lemma_pow128_pos(k: nat)
    ensures
        pow128(k) >= 1,
    decreases k,
{
    if k > 0 {
        lemma_pow128_pos((k - 1) as nat);
    }
}

/// Splitting the value of varint bytes at `mid`: the low digits at the
/// front, the high digits scaled by 128 to their count.
pub proof fn lemma_uvarint_val_split(s: Seq<u8>, pos: int, mid: int, end: int)
    requires
        0 <= pos <= mid <= end <= s.len(),
    ensures
        uvarint_val(s, pos, end) == uvarint_val(s, pos, mid) + pow128((mid - pos) as nat)
            * uvarint_val(s, mid, end),
    decreases mid - pos,
{
    if pos == mid {
    } else {
        lemma_uvarint_val_split(s, pos + 1, mid, end);
        assert(uvarint_val(s, pos, end) == (s[pos] % 0x80) + 0x80 * uvarint_val(s, pos + 1, end));
        assert(uvarint_val(s, pos, mid) == (s[pos] % 0x80) + 0x80 * uvarint_val(s, pos + 1, mid));
        assert(0x80 * (uvarint_val(s, pos + 1, mid) + pow128((mid - pos - 1) as nat) * uvarint_val(
            s,
            mid,
            end,
        )) == 0x80 * uvarint_val(s, pos + 1, mid) + (0x80 * pow128((mid - pos - 1) as nat))
            * uvarint_val(s, mid, end)) by (nonlinear_arith);
        assert(pow128((mid - pos) as nat) == 0x80 * pow128((mid - pos - 1) as nat));
    }
}

/// The varint bytes of `x` placed after a prefix decode to exactly `x`.
pub proof fn lemma_enc_uvarint_decodes(s: Seq<u8>, pos: int, x: nat)
    requires
        0 <= pos,
        pos + enc_uvarint(x).len() <= s.len(),
        s.subrange(pos, pos + enc_uvarint(x).len() as int) == enc_uvarint(x),
    ensures
        uvarint_end(s, pos) == pos + enc_uvarint(x).len(),
        uvarint_val(s, pos, pos + enc_uvarint(x).len() as int) == x,
    decreases x,
{
    let l = enc_uvarint(x).len() as int;
    if x < 0x80 {
        assert(s[pos] == enc_uvarint(x)[0]);
        lemma_uvarint_val_one(s, pos);
    } else {
        assert(s[pos] == enc_uvarint(x)[0]);
        assert(s[pos] == 0x80 + x % 0x80);
        let rest = enc_uvarint((x / 0x80) as nat);
        assert(s.subrange(pos + 1, pos + l) =~= rest) by {
            assert forall|j: int| 0 <= j < rest.len() implies s.subrange(pos + 1, pos + l)[j]
                == rest[j] by {
                assert(s.subrange(pos, pos + l)[j + 1] == enc_uvarint(x)[j + 1]);
            }
        }
        lemma_enc_uvarint_decodes(s, pos + 1, (x / 0x80) as nat);
        assert(uvarint_end(s, pos) == uvarint_end(s, pos + 1));
        assert(uvarint_val(s, pos, pos + l) == (s[pos] % 0x80) + 0x80 * uvarint_val(
            s,
            pos + 1,
            pos + l,
        ));
        lemma_fundamental_div_mod(x as int, 0x80);
    }
}

/// The varint encoding of a value below `pow128(k)` takes at most `k` bytes.
pub proof fn lemma_enc_uvarint_len(x: nat, k: nat)
    requires
        k >= 1,
        x < pow128(k),
    ensures
        enc_uvarint(x).len() <= k,
    decreases k,
{
    if x >= 0x80 {
        assert(k >= 2) by {
            if k == 1 {
                lemma_pow128_values();
            }
        }
        assert(x / 0x80 < pow128((k - 1) as nat)) by {
            assert(pow128(k) == 0x80 * pow128((k - 1) as nat));
            lemma_fundamental_div_mod(x as int, 0x80);
        }
        lemma_enc_uvarint_len((x / 0x80) as nat, (k - 1) as nat);
    }
}

/// Round trip for unsigned 32-bit varints: decoding right after a prefix
/// followed by the encoding of `x` yields `x` and stops right after it.
pub proof fn lemma_uvarint32_round_trip(prefix: Seq<u8>, x: u32, suffix: Seq<u8>)
    ensures
        dec_uvarint32(prefix + enc_uvarint(x as nat) + suffix, prefix.len() as int) == Ok::<
            (u32, int),
            DecodeError,
        >((x, prefix.len() as int + enc_uvarint(x as nat).len() as int)),
{
    let s = prefix + enc_uvarint(x as nat) + suffix;
    let p = prefix.len() as int;
    let l = enc_uvarint(x as nat).len() as int;
    assert(s.subrange(p, p + l) =~= enc_uvarint(x as nat));
    lemma_enc_uvarint_decodes(s, p, x as nat);
    lemma_pow128_values();
    lemma_enc_uvarint_len(x as nat, 5);
    if l == 5 {
        assert(s[p + 4] < 0x10) by {
            lemma_uvarint_val_split(s, p, p + 4, p + 5);
            lemma_uvarint_val_one(s, p + 4);
            lemma_uvarint_end_bytes(s, p);
            lemma_pow128_values();
            assert(uvarint_val(s, p, p + 5) >= 0x1000_0000 * (s[p + 4] % 0x80)) by (
            nonlinear_arith)
                requires
                    uvarint_val(s, p, p + 5) == uvarint_val(s, p, p + 4) + 0x1000_0000
                        * uvarint_val(s, p + 4, p + 5),
                    uvarint_val(s, p + 4, p + 5) == s[p + 4] % 0x80,
            ;
            assert(s[p + 4] < 0x80);
        }
    }
}

/// Round trip for unsigned 64-bit varints.
pub proof fn lemma_uvarint64_round_trip(prefix: Seq<u8>, x: u64, suffix: Seq<u8>)
    ensures
        dec_uvarint64(prefix + enc_uvarint(x as nat) + suffix, prefix.len() as int) == Ok::<
            (u64, int),
            DecodeError,
        >((x, prefix.len() as int + enc_uvarint(x as nat).len() as int)),
{
    let s = prefix + enc_uvarint(x as nat) + suffix;
    let p = prefix.len() as int;
    let l = enc_uvarint(x as nat).len() as int;
    assert(s.subrange(p, p + l) =~= enc_uvarint(x as nat));
    lemma_enc_uvarint_decodes(s, p, x as nat);
    lemma_pow128_values();
    lemma_enc_uvarint_len(x as nat, 10);
    if l == 10 {
        assert(s[p + 9] < 0x2) by {
            lemma_uvarint_val_split(s, p, p + 9, p + 10);
            lemma_uvarint_val_one(s, p + 9);
            lemma_uvarint_end_bytes(s, p);
            assert(uvarint_val(s, p, p + 10) >= 0x8000_0000_0000_0000 * (s[p + 9] % 0x80)) by (
            nonlinear_arith)
                requires
                    uvarint_val(s, p, p + 10) == uvarint_val(s, p, p + 9) + 0x8000_0000_0000_0000
                        * uvarint_val(s, p + 9, p + 10),
                    uvarint_val(s, p + 9, p + 10) == s[p + 9] % 0x80,
            ;
            assert(s[p + 9] < 0x80);
        }
    }
}

/// Round trip for ZigZag 32-bit varints.
pub proof fn lemma_varint32_round_trip(prefix: Seq<u8>, x: i32, suffix: Seq<u8>)
    ensures
        dec_varint32(prefix + enc_varint32(x) + suffix, prefix.len() as int) == Ok::<
            (i32, int),
            DecodeError,
        >((x, prefix.len() as int + enc_varint32(x).len() as int)),
{
    lemma_uvarint32_round_trip(prefix, zigzag32(x), suffix);
    assert(unzigzag32(zigzag32(x)) == x);
}

/// Round trip for ZigZag 64-bit varints.
pub proof fn lemma_varint64_round_trip(prefix: Seq<u8>, x: i64, suffix: Seq<u8>)
    ensures
        dec_varint64(prefix + enc_varint64(x) + suffix, prefix.len() as int) == Ok::<
            (i64, int),
            DecodeError,
        >((x, prefix.len() as int + enc_varint64(x).len() as int)),
{
    lemma_uvarint64_round_trip(prefix, zigzag64(x), suffix);
    assert(unzigzag64(zigzag64(x)) == x);
}

} // verus!
