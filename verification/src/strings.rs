//! Strings and byte arrays in their two wire encodings. Classic: an `i16`
//! length prefix, -1 for null. Compact: an unsigned varint holding the
//! length plus one, 0 for null. Each comes in a nullable and a non-nullable
//! variant; strings are UTF-8 validated on read.

use vstd::prelude::*;
use vstd::utf8::{valid_utf8, decode_utf8, encode_utf8};
use crate::errors::{DecodeError, EncodeError};
use crate::primitives::{enc_i16, dec_i16};
use crate::varint::{enc_uvarint, dec_uvarint32};

verus! {

/// The sanity cap on a compact length: lengths above it are rejected on
/// read so a hostile prefix cannot force a huge allocation.
pub const MAX_COMPACT_LEN: u32 = 0x7FFF_FFFF;

/// Classic encoding of bytes: `i16` length then the bytes; null is -1.
pub open spec fn enc_classic_bytes(v: Option<Seq<u8>>) -> Seq<u8> {
    match v {
        Option::None => enc_i16(-1i16),
        Option::Some(b) => enc_i16(b.len() as i16) + b,
    }
}

/// Compact encoding of bytes: varint of length plus one then the bytes;
/// null is the single byte 0.
pub open spec fn enc_compact_bytes(v: Option<Seq<u8>>) -> Seq<u8> {
    match v {
        Option::None => enc_uvarint(0),
        Option::Some(b) => enc_uvarint((b.len() + 1) as nat) + b,
    }
}

/// Classic encoding of a string: its UTF-8 bytes under a classic length.
pub open spec fn enc_classic_string(v: Option<Seq<char>>) -> Seq<u8> {
    match v {
        Option::None => enc_classic_bytes(Option::None),
        Option::Some(cs) => enc_classic_bytes(Option::Some(encode_utf8(cs))),
    }
}

/// Compact encoding of a string: its UTF-8 bytes under a compact length.
pub open spec fn enc_compact_string(v: Option<Seq<char>>) -> Seq<u8> {
    match v {
        Option::None => enc_compact_bytes(Option::None),
        Option::Some(cs) => enc_compact_bytes(Option::Some(encode_utf8(cs))),
    }
}

/// Spec-level decoder for classic bytes at `pos`.
pub open spec fn dec_classic_bytes(s: Seq<u8>, pos: int, nullable: bool) -> Result<
    (Option<Seq<u8>>, int),
    DecodeError,
> {
    match dec_i16(s, pos) {
        Ok((n, p1)) => if n < 0 {
            if nullable {
                Ok((Option::None, p1))
            } else {
                Err(DecodeError::Malformed)
            }
        } else if p1 + n > s.len() {
            Err(DecodeError::UnexpectedEof)
        } else {
            Ok((Option::Some(s.subrange(p1, p1 + n)), p1 + n))
        },
        Err(e) => Err(e),
    }
}

/// Spec-level decoder for compact bytes at `pos`.
pub open spec fn dec_compact_bytes(s: Seq<u8>, pos: int, nullable: bool) -> Result<
    (Option<Seq<u8>>, int),
    DecodeError,
> {
    match dec_uvarint32(s, pos) {
        Ok((n, p1)) => if n == 0 {
            if nullable {
                Ok((Option::None, p1))
            } else {
                Err(DecodeError::Malformed)
            }
        } else if n - 1 > MAX_COMPACT_LEN {
            Err(DecodeError::Malformed)
        } else if p1 + (n - 1) > s.len() {
            Err(DecodeError::UnexpectedEof)
        } else {
            Ok((Option::Some(s.subrange(p1, p1 + n - 1)), p1 + n - 1))
        },
        Err(e) => Err(e),
    }
}

/// Spec-level decoder for a classic string at `pos`.
pub open spec fn dec_classic_string(s: Seq<u8>, pos: int, nullable: bool) -> Result<
    (Option<Seq<char>>, int),
    DecodeError,
> {
    match dec_classic_bytes(s, pos, nullable) {
        Ok((Option::None, p)) => Ok((Option::None, p)),
        Ok((Option::Some(b), p)) => if valid_utf8(b) {
            Ok((Option::Some(decode_utf8(b)), p))
        } else {
            Err(DecodeError::InvalidValue)
        },
        Err(e) => Err(e),
    }
}

/// Spec-level decoder for a compact string at `pos`.
pub open spec fn dec_compact_string(s: Seq<u8>, pos: int, nullable: bool) -> Result<
    (Option<Seq<char>>, int),
    DecodeError,
> {
    match dec_compact_bytes(s, pos, nullable) {
        Ok((Option::None, p)) => Ok((Option::None, p)),
        Ok((Option::Some(b), p)) => if valid_utf8(b) {
            Ok((Option::Some(decode_utf8(b)), p))
        } else {
            Err(DecodeError::InvalidValue)
        },
        Err(e) => Err(e),
    }
}

/// Relies on `String::from_utf8`: it succeeds exactly on valid UTF-8 input,
/// and the characters of the result are the decoding of those bytes.
#[verifier::external_body]
fn string_from_utf8(b: Vec<u8>) -> (r: Option<String>)
    ensures
        match r {
            Option::Some(s) => valid_utf8(b@) && s@ == decode_utf8(b@),
            Option::None => !valid_utf8(b@),
        },
{
    String::from_utf8(b).ok()
}

/// Copies `count` bytes of `buf` starting at `from` into a fresh vector.
pub fn copy_range(buf: &Vec<u8>, from: usize, count: usize) -> (r: Vec<u8>)
    requires
        from + count <= buf.len(),
    ensures
        r@ == buf@.subrange(from as int, from as int + count as int),
{
    let mut r: Vec<u8> = Vec::new();
    let mut i: usize = 0;
    while i < count
        invariant
            from + count <= buf.len(),
            0 <= i <= count,
            r@ == buf@.subrange(from as int, from as int + i as int),
        decreases count - i,
    {
        r.push(buf[from + i]);
        assert(r@ =~= buf@.subrange(from as int, from as int + i as int + 1));
        i = i + 1;
    }
    r
}

/// Writes classic bytes. Null is accepted only in nullable mode; on a null
/// error nothing has been written.
pub fn write_classic_bytes(out: &mut Vec<u8>, v: Option<&Vec<u8>>, nullable: bool) -> (r: Result<
    (),
    EncodeError,
>)
    requires
        v matches Option::Some(b) ==> b@.len() <= 0x7FFF,
    ensures
        match r {
            Ok(()) => ((v matches Option::Some(_)) || nullable) && final(out)@ == old(out)@
                + enc_classic_bytes(opt_bytes_view(v)),
            Err(e) => (v matches Option::None) && !nullable && e == EncodeError::NullValue
                && final(out)@ == old(out)@,
        },
{
    match v {
        Option::None => {
            if !nullable {
                return Err(EncodeError::NullValue);
            }
            crate::primitives::write_i16(out, -1);
            Ok(())
        },
        Option::Some(b) => {
            crate::primitives::write_i16(out, b.len() as i16);
            out.extend_from_slice(b.as_slice());
            assert(out@ =~= old(out)@ + enc_classic_bytes(opt_bytes_view(v)));
            Ok(())
        },
    }
}

/// Writes compact bytes. Null is accepted only in nullable mode.
pub fn write_compact_bytes(out: &mut Vec<u8>, v: Option<&Vec<u8>>, nullable: bool) -> (r: Result<
    (),
    EncodeError,
>)
    requires
        v matches Option::Some(b) ==> b@.len() + 1 <= 0xFFFF_FFFF,
    ensures
        match r {
            Ok(()) => ((v matches Option::Some(_)) || nullable) && final(out)@ == old(out)@
                + enc_compact_bytes(opt_bytes_view(v)),
            Err(e) => (v matches Option::None) && !nullable && e == EncodeError::NullValue
                && final(out)@ == old(out)@,
        },
{
    match v {
        Option::None => {
            if !nullable {
                return Err(EncodeError::NullValue);
            }
            crate::varint::write_uvarint32(out, 0);
            Ok(())
        },
        Option::Some(b) => {
            crate::varint::write_uvarint32(out, (b.len() as u32) + 1);
            out.extend_from_slice(b.as_slice());
            assert(out@ =~= old(out)@ + enc_compact_bytes(opt_bytes_view(v)));
            Ok(())
        },
    }
}

/// The sequence view of an optional borrowed byte vector.
pub open spec fn opt_bytes_view(v: Option<&Vec<u8>>) -> Option<Seq<u8>> {
    match v {
        Option::None => Option::None,
        Option::Some(b) => Option::Some(b@),
    }
}

/// The character-sequence view of an optional borrowed string.
pub open spec fn opt_str_view(v: Option<&str>) -> Option<Seq<char>> {
    match v {
        Option::None => Option::None,
        Option::Some(s) => Option::Some(s@),
    }
}

/// Writes a classic string: its UTF-8 bytes under an `i16` length.
pub fn write_classic_string(out: &mut Vec<u8>, v: Option<&str>, nullable: bool) -> (r: Result<
    (),
    EncodeError,
>)
    requires
        v matches Option::Some(s) ==> encode_utf8(s@).len() <= 0x7FFF,
    ensures
        match r {
            Ok(()) => ((v matches Option::Some(_)) || nullable) && final(out)@ == old(out)@
                + enc_classic_string(opt_str_view(v)),
            Err(e) => (v matches Option::None) && !nullable && e == EncodeError::NullValue
                && final(out)@ == old(out)@,
        },
{
    match v {
        Option::None => {
            if !nullable {
                return Err(EncodeError::NullValue);
            }
            crate::primitives::write_i16(out, -1);
            Ok(())
        },
        Option::Some(s) => {
            let bytes = s.as_bytes();
            crate::primitives::write_i16(out, bytes.len() as i16);
            out.extend_from_slice(bytes);
            assert(out@ =~= old(out)@ + enc_classic_string(opt_str_view(v)));
            Ok(())
        },
    }
}

/// Writes a compact string: its UTF-8 bytes under a varint length plus one.
pub fn write_compact_string(out: &mut Vec<u8>, v: Option<&str>, nullable: bool) -> (r: Result<
    (),
    EncodeError,
>)
    requires
        v matches Option::Some(s) ==> encode_utf8(s@).len() + 1 <= 0xFFFF_FFFF,
    ensures
        match r {
            Ok(()) => ((v matches Option::Some(_)) || nullable) && final(out)@ == old(out)@
                + enc_compact_string(opt_str_view(v)),
            Err(e) => (v matches Option::None) && !nullable && e == EncodeError::NullValue
                && final(out)@ == old(out)@,
        },
{
    match v {
        Option::None => {
            if !nullable {
                return Err(EncodeError::NullValue);
            }
            crate::varint::write_uvarint32(out, 0);
            Ok(())
        },
        Option::Some(s) => {
            let bytes = s.as_bytes();
            crate::varint::write_uvarint32(out, (bytes.len() as u32) + 1);
            out.extend_from_slice(bytes);
            assert(out@ =~= old(out)@ + enc_compact_string(opt_str_view(v)));
            Ok(())
        },
    }
}

/// Reads classic bytes at `pos`.
pub fn read_classic_bytes(buf: &Vec<u8>, pos: usize, nullable: bool) -> (r: Result<
    (Option<Vec<u8>>, usize),
    DecodeError,
>)
    ensures
        match r {
            Ok((v, n)) => dec_classic_bytes(buf@, pos as int, nullable) == Ok::<
                (Option<Seq<u8>>, int),
                DecodeError,
            >((opt_view(v), n as int)),
            Err(e) => dec_classic_bytes(buf@, pos as int, nullable) == Err::<
                (Option<Seq<u8>>, int),
                DecodeError,
            >(e),
        },
{
    match crate::primitives::read_i16(buf, pos) {
        Ok((n, p1)) => {
            if n < 0 {
                if nullable {
                    Ok((Option::None, p1))
                } else {
                    Err(DecodeError::Malformed)
                }
            } else {
                let count = n as usize;
                if count > buf.len() - p1 {
                    return Err(DecodeError::UnexpectedEof);
                }
                let b = copy_range(buf, p1, count);
                Ok((Option::Some(b), p1 + count))
            }
        },
        Err(e) => Err(e),
    }
}

/// Reads compact bytes at `pos`.
pub fn read_compact_bytes(buf: &Vec<u8>, pos: usize, nullable: bool) -> (r: Result<
    (Option<Vec<u8>>, usize),
    DecodeError,
>)
    ensures
        match r {
            Ok((v, n)) => dec_compact_bytes(buf@, pos as int, nullable) == Ok::<
                (Option<Seq<u8>>, int),
                DecodeError,
            >((opt_view(v), n as int)),
            Err(e) => dec_compact_bytes(buf@, pos as int, nullable) == Err::<
                (Option<Seq<u8>>, int),
                DecodeError,
            >(e),
        },
{
    match crate::varint::read_uvarint32(buf, pos) {
        Ok((n, p1)) => {
            if n == 0 {
                if nullable {
                    Ok((Option::None, p1))
                } else {
                    Err(DecodeError::Malformed)
                }
            } else if n - 1 > MAX_COMPACT_LEN {
                Err(DecodeError::Malformed)
            } else {
                let count = (n - 1) as usize;
                if count > buf.len() - p1 {
                    return Err(DecodeError::UnexpectedEof);
                }
                let b = copy_range(buf, p1, count);
                Ok((Option::Some(b), p1 + count))
            }
        },
        Err(e) => Err(e),
    }
}

/// The sequence view of an optional owned byte vector.
pub open spec fn opt_view(v: Option<Vec<u8>>) -> Option<Seq<u8>> {
    match v {
        Option::None => Option::None,
        Option::Some(b) => Option::Some(b@),
    }
}

/// The character-sequence view of an optional owned string.
pub open spec fn opt_string_view(v: Option<String>) -> Option<Seq<char>> {
    match v {
        Option::None => Option::None,
        Option::Some(s) => Option::Some(s@),
    }
}

/// Reads a classic string at `pos`, validating UTF-8.
pub fn read_classic_string(buf: &Vec<u8>, pos: usize, nullable: bool) -> (r: Result<
    (Option<String>, usize),
    DecodeError,
>)
    ensures
        match r {
            Ok((v, n)) => dec_classic_string(buf@, pos as int, nullable) == Ok::<
                (Option<Seq<char>>, int),
                DecodeError,
            >((opt_string_view(v), n as int)),
            Err(e) => dec_classic_string(buf@, pos as int, nullable) == Err::<
                (Option<Seq<char>>, int),
                DecodeError,
            >(e),
        },
{
    match read_classic_bytes(buf, pos, nullable) {
        Ok((Option::None, p)) => Ok((Option::None, p)),
        Ok((Option::Some(b), p)) => match string_from_utf8(b) {
            Option::Some(s) => Ok((Option::Some(s), p)),
            Option::None => Err(DecodeError::InvalidValue),
        },
        Err(e) => Err(e),
    }
}

/// Reads a compact string at `pos`, validating UTF-8.
pub fn read_compact_string(buf: &Vec<u8>, pos: usize, nullable: bool) -> (r: Result<
    (Option<String>, usize),
    DecodeError,
>)
    ensures
        match r {
            Ok((v, n)) => dec_compact_string(buf@, pos as int, nullable) == Ok::<
                (Option<Seq<char>>, int),
                DecodeError,
            >((opt_string_view(v), n as int)),
            Err(e) => dec_compact_string(buf@, pos as int, nullable) == Err::<
                (Option<Seq<char>>, int),
                DecodeError,
            >(e),
        },
{
    match read_compact_bytes(buf, pos, nullable) {
        Ok((Option::None, p)) => Ok((Option::None, p)),
        Ok((Option::Some(b), p)) => match string_from_utf8(b) {
            Option::Some(s) => Ok((Option::Some(s), p)),
            Option::None => Err(DecodeError::InvalidValue),
        },
        Err(e) => Err(e),
    }
}

/// The exact bytes of a null: two 0xFF bytes in a classic slot, one zero
/// byte in a compact slot.
pub proof fn lemma_null_encodings()
    ensures
        enc_classic_string(Option::None) == seq![0xFFu8, 0xFFu8],
        enc_compact_string(Option::None) == seq![0u8],
        enc_classic_bytes(Option::None) == seq![0xFFu8, 0xFFu8],
        enc_compact_bytes(Option::None) == seq![0u8],
{
    assert(enc_classic_bytes(Option::None) =~= seq![0xFFu8, 0xFFu8]);
    assert(enc_compact_bytes(Option::None) =~= seq![0u8]);
}

/// Round trip for classic bytes.
pub proof fn lemma_classic_bytes_round_trip(
    prefix: Seq<u8>,
    v: Option<Seq<u8>>,
    suffix: Seq<u8>,
    nullable: bool,
)
    requires
        v matches Option::Some(b) ==> b.len() <= 0x7FFF,
        v matches Option::None ==> nullable,
    ensures
        dec_classic_bytes(prefix + enc_classic_bytes(v) + suffix, prefix.len() as int, nullable)
            == Ok::<(Option<Seq<u8>>, int), DecodeError>(
            (v, prefix.len() as int + enc_classic_bytes(v).len() as int),
        ),
{
    let s = prefix + enc_classic_bytes(v) + suffix;
    let p = prefix.len() as int;
    match v {
        Option::None => {
            assert(s =~= prefix + enc_i16(-1i16) + suffix);
            crate::primitives::lemma_i16_round_trip(prefix, -1i16, suffix);
        },
        Option::Some(b) => {
            let n = b.len() as i16;
            assert(s =~= prefix + enc_i16(n) + (b + suffix));
            crate::primitives::lemma_i16_round_trip(prefix, n, b + suffix);
            assert(s.subrange(p + 2, p + 2 + n as int) =~= b);
        },
    }
}

/// Round trip for compact bytes.
pub proof fn lemma_compact_bytes_round_trip(
    prefix: Seq<u8>,
    v: Option<Seq<u8>>,
    suffix: Seq<u8>,
    nullable: bool,
)
    requires
        v matches Option::Some(b) ==> b.len() <= MAX_COMPACT_LEN,
        v matches Option::None ==> nullable,
    ensures
        dec_compact_bytes(prefix + enc_compact_bytes(v) + suffix, prefix.len() as int, nullable)
            == Ok::<(Option<Seq<u8>>, int), DecodeError>(
            (v, prefix.len() as int + enc_compact_bytes(v).len() as int),
        ),
{
    let s = prefix + enc_compact_bytes(v) + suffix;
    let p = prefix.len() as int;
    match v {
        Option::None => {
            assert(s =~= prefix + enc_uvarint(0) + suffix);
            crate::varint::lemma_uvarint32_round_trip(prefix, 0, suffix);
        },
        Option::Some(b) => {
            let n = (b.len() + 1) as u32;
            assert(s =~= prefix + enc_uvarint(n as nat) + (b + suffix));
            crate::varint::lemma_uvarint32_round_trip(prefix, n, b + suffix);
            let p1 = p + enc_uvarint(n as nat).len() as int;
            assert(s.subrange(p1, p1 + n as int - 1) =~= b);
        },
    }
}

/// Round trip for classic strings.
pub proof fn lemma_classic_string_round_trip(
    prefix: Seq<u8>,
    v: Option<Seq<char>>,
    suffix: Seq<u8>,
    nullable: bool,
)
    requires
        v matches Option::Some(cs) ==> encode_utf8(cs).len() <= 0x7FFF,
        v matches Option::None ==> nullable,
    ensures
        dec_classic_string(prefix + enc_classic_string(v) + suffix, prefix.len() as int, nullable)
            == Ok::<(Option<Seq<char>>, int), DecodeError>(
            (v, prefix.len() as int + enc_classic_string(v).len() as int),
        ),
{
    match v {
        Option::None => {
            lemma_classic_bytes_round_trip(prefix, Option::None, suffix, nullable);
        },
        Option::Some(cs) => {
            lemma_classic_bytes_round_trip(prefix, Option::Some(encode_utf8(cs)), suffix, nullable);
            vstd::utf8::encode_utf8_valid_utf8(cs);
            vstd::utf8::encode_utf8_decode_utf8(cs);
        },
    }
}

/// Round trip for compact strings.
pub proof fn lemma_compact_string_round_trip(
    prefix: Seq<u8>,
    v: Option<Seq<char>>,
    suffix: Seq<u8>,
    nullable: bool,
)
    requires
        v matches Option::Some(cs) ==> encode_utf8(cs).len() <= MAX_COMPACT_LEN,
        v matches Option::None ==> nullable,
    ensures
        dec_compact_string(prefix + enc_compact_string(v) + suffix, prefix.len() as int, nullable)
            == Ok::<(Option<Seq<char>>, int), DecodeError>(
            (v, prefix.len() as int + enc_compact_string(v).len() as int),
        ),
{
    match v {
        Option::None => {
            lemma_compact_bytes_round_trip(prefix, Option::None, suffix, nullable);
        },
        Option::Some(cs) => {
            lemma_compact_bytes_round_trip(prefix, Option::Some(encode_utf8(cs)), suffix, nullable);
            vstd::utf8::encode_utf8_valid_utf8(cs);
            vstd::utf8::encode_utf8_decode_utf8(cs);
        },
    }
}

} // verus!
