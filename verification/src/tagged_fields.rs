//! The tagged-fields section of flexible message versions: an ordered,
//! strictly-increasing-by-tag sequence of `{tag, opaque bytes}` entries. The
//! writer refuses non-increasing input; the reader accepts any order but
//! refuses duplicate tags.

use vstd::prelude::*;
use vstd::pervasive::unreached;
use vstd::std_specs::cmp::PartialEqSpec;
use crate::errors::{DecodeError, EncodeError};
use crate::primitives::{u32_of_i32, i32_of_u32};
use crate::varint::{enc_uvarint, dec_uvarint32};
use crate::strings::{
    enc_compact_bytes,
    dec_compact_bytes,
    write_compact_bytes,
    read_compact_bytes,
    MAX_COMPACT_LEN,
};

verus! {

/// One raw tagged field: a numeric tag and its opaque bytes.
#[derive(Debug, Clone)]
pub struct RawTaggedField {
    pub tag: i32,
    pub data: Vec<u8>,
}

/// The mathematical shape of a raw tagged field.
pub ghost struct TaggedFieldModel {
    pub tag: i32,
    pub data: Seq<u8>,
}

impl View for RawTaggedField {
    type V = TaggedFieldModel;

    open spec fn view(&self) -> TaggedFieldModel {
        TaggedFieldModel { tag: self.tag, data: self.data@ }
    }
}

impl DeepView for RawTaggedField {
    type V = TaggedFieldModel;

    open spec fn deep_view(&self) -> TaggedFieldModel {
        self@
    }
}

impl PartialEq for RawTaggedField {
    fn eq(&self, other: &RawTaggedField) -> (r: bool) {
        let tags_eq = self.tag == other.tag;
        let data_eq = self.data == other.data;
        proof {
            if data_eq {
                assert(self.data@ =~= other.data@);
            }
            if self.data@ == other.data@ {
                assert(self.data.eq_spec(&other.data));
            }
        }
        tags_eq && data_eq
    }
}

impl vstd::std_specs::cmp::PartialEqSpecImpl for RawTaggedField {
    open spec fn obeys_eq_spec() -> bool {
        true
    }

    open spec fn eq_spec(&self, other: &RawTaggedField) -> bool {
        self.tag == other.tag && self.data@ == other.data@
    }
}

/// The wire bytes of one tagged field: its tag as an unsigned varint, then
/// its data as compact non-nullable bytes.
pub open spec fn enc_tagged_field(f: TaggedFieldModel) -> Seq<u8> {
    enc_uvarint(u32_of_i32(f.tag) as nat) + enc_compact_bytes(Option::Some(f.data))
}

/// The concatenated wire bytes of a sequence of tagged fields.
pub open spec fn enc_tagged_fields_seq(fs: Seq<TaggedFieldModel>) -> Seq<u8>
    decreases fs.len(),
{
    if fs.len() == 0 {
        Seq::empty()
    } else {
        enc_tagged_field(fs[0]) + enc_tagged_fields_seq(fs.drop_first())
    }
}

/// A whole tagged-fields section: the count as an unsigned varint, then the
/// fields in order.
pub open spec fn enc_tagged_section(fs: Seq<TaggedFieldModel>) -> Seq<u8> {
    enc_uvarint(fs.len()) + enc_tagged_fields_seq(fs)
}

/// Every tag is strictly below every later tag.
pub open spec fn tags_strictly_increasing(fs: Seq<TaggedFieldModel>) -> bool {
    forall|i: int, j: int| 0 <= i < j < fs.len() ==> fs[i].tag < fs[j].tag
}

/// Two entries somewhere share a tag.
pub open spec fn has_duplicate_tags(fs: Seq<TaggedFieldModel>) -> bool {
    exists|i: int, j: int| 0 <= i < j < fs.len() && fs[i].tag == fs[j].tag
}

/// The least index whose tag is not strictly below its successor's, or -1.
pub open spec fn first_tag_violation(fs: Seq<TaggedFieldModel>) -> int
    decreases fs.len(),
{
    if fs.len() < 2 {
        -1
    } else if fs[0].tag >= fs[1].tag {
        0
    } else {
        let r = first_tag_violation(fs.drop_first());
        if r == -1 {
            -1
        } else {
            r + 1
        }
    }
}

/// Spec-level decoder for one tagged field at `pos`.
pub open spec fn dec_tagged_field(s: Seq<u8>, pos: int) -> Result<
    (TaggedFieldModel, int),
    DecodeError,
> {
    match dec_uvarint32(s, pos) {
        Ok((tu, p1)) => match dec_compact_bytes(s, p1, false) {
            Ok((Option::Some(b), p2)) => Ok((TaggedFieldModel { tag: i32_of_u32(tu), data: b }, p2)),
            Ok((Option::None, _)) => Err(DecodeError::Malformed),
            Err(e) => Err(e),
        },
        Err(e) => Err(e),
    }
}

/// Spec-level decoder for `k` tagged fields in a row starting at `pos`.
pub open spec fn dec_tagged_entries(s: Seq<u8>, pos: int, k: nat) -> Result<
    (Seq<TaggedFieldModel>, int),
    DecodeError,
>
    decreases k,
{
    if k == 0 {
        Ok((Seq::empty(), pos))
    } else {
        match dec_tagged_field(s, pos) {
            Ok((f, p1)) => match dec_tagged_entries(s, p1, (k - 1) as nat) {
                Ok((rest, p2)) => Ok((seq![f] + rest, p2)),
                Err(e) => Err(e),
            },
            Err(e) => Err(e),
        }
    }
}

/// Spec-level decoder for a whole tagged-fields section at `pos`: the count,
/// the entries, and a duplicate-tag check.
pub open spec fn dec_tagged_section(s: Seq<u8>, pos: int) -> Result<
    (Seq<TaggedFieldModel>, int),
    DecodeError,
> {
    match dec_uvarint32(s, pos) {
        Ok((k, p1)) => match dec_tagged_entries(s, p1, k as nat) {
            Ok((fs, p2)) => if has_duplicate_tags(fs) {
                Err(DecodeError::Malformed)
            } else {
                Ok((fs, p2))
            },
            Err(e) => Err(e),
        },
        Err(e) => Err(e),
    }
}

impl RawTaggedField {
    /// Writes this field: tag as unsigned varint, data as compact bytes.
    pub fn write(&self, out: &mut Vec<u8>)
        requires
            self.data@.len() + 1 <= 0xFFFF_FFFF,
        ensures
            final(out)@ == old(out)@ + enc_tagged_field(self@),
    {
        let tu: u32 = if self.tag >= 0 {
            self.tag as u32
        } else {
            ((self.tag as i64) + 0x1_0000_0000) as u32
        };
        crate::varint::write_uvarint32(out, tu);
        let r = write_compact_bytes(out, Option::Some(&self.data), false);
        match r {
            Ok(()) => {},
            Err(_) => unreached(),
        }
        assert(out@ =~= old(out)@ + enc_tagged_field(self@));
    }

    /// Reads one field at `pos`.
    pub fn read(buf: &Vec<u8>, pos: usize) -> (r: Result<(RawTaggedField, usize), DecodeError>)
        ensures
            match r {
                Ok((f, n)) => dec_tagged_field(buf@, pos as int) == Ok::<
                    (TaggedFieldModel, int),
                    DecodeError,
                >((f@, n as int)),
                Err(e) => dec_tagged_field(buf@, pos as int) == Err::<
                    (TaggedFieldModel, int),
                    DecodeError,
                >(e),
            },
    {
        match crate::varint::read_uvarint32(buf, pos) {
            Ok((tu, p1)) => match read_compact_bytes(buf, p1, false) {
                Ok((Option::Some(b), p2)) => {
                    let tag: i32 = if tu < 0x8000_0000 {
                        tu as i32
                    } else {
                        ((tu as i64) - 0x1_0000_0000) as i32
                    };
                    Ok((RawTaggedField { tag, data: b }, p2))
                },
                Ok((Option::None, _)) => Err(DecodeError::Malformed),
                Err(e) => Err(e),
            },
            Err(e) => Err(e),
        }
    }
}

/// Appending a field to a sequence appends its bytes to the encoding.
pub proof fn lemma_enc_seq_snoc(fs: Seq<TaggedFieldModel>, f: TaggedFieldModel)
    ensures
        enc_tagged_fields_seq(fs.push(f)) == enc_tagged_fields_seq(fs) + enc_tagged_field(f),
    decreases fs.len(),
{
    let p = fs.push(f);
    assert(enc_tagged_fields_seq(p) == enc_tagged_field(p[0]) + enc_tagged_fields_seq(
        p.drop_first(),
    ));
    if fs.len() == 0 {
        assert(p.drop_first() =~= Seq::<TaggedFieldModel>::empty());
        assert(enc_tagged_fields_seq(Seq::<TaggedFieldModel>::empty()) == Seq::<u8>::empty());
        assert(p[0] == f);
        assert(enc_tagged_field(f) + Seq::<u8>::empty() =~= Seq::<u8>::empty()
            + enc_tagged_field(f));
    } else {
        assert(p.drop_first() =~= fs.drop_first().push(f));
        lemma_enc_seq_snoc(fs.drop_first(), f);
        assert(p[0] == fs[0]);
        assert(enc_tagged_field(fs[0]) + (enc_tagged_fields_seq(fs.drop_first())
            + enc_tagged_field(f)) =~= (enc_tagged_field(fs[0]) + enc_tagged_fields_seq(
            fs.drop_first(),
        )) + enc_tagged_field(f));
    }
}

/// When every adjacent pair increases, every pair does.
proof fn lemma_tag_chain(fs: Seq<TaggedFieldModel>, i: int, j: int)
    requires
        forall|k: int| 0 <= k < fs.len() - 1 ==> #[trigger] fs[k].tag < fs[k + 1].tag,
        0 <= i < j < fs.len(),
    ensures
        fs[i].tag < fs[j].tag,
    decreases j - i,
{
    if i + 1 < j {
        lemma_tag_chain(fs, i + 1, j);
    }
}

/// A sequence whose adjacent pairs all increase is strictly increasing.
pub proof fn lemma_adjacent_increasing(fs: Seq<TaggedFieldModel>)
    requires
        forall|k: int| 0 <= k < fs.len() - 1 ==> #[trigger] fs[k].tag < fs[k + 1].tag,
    ensures
        tags_strictly_increasing(fs),
{
    assert forall|i: int, j: int| 0 <= i < j < fs.len() implies fs[i].tag < fs[j].tag by {
        lemma_tag_chain(fs, i, j);
    }
}

/// The first adjacent violation, seen from index `i`: when every earlier
/// pair increases and pair `i` does not, the least violation is `i`.
proof fn lemma_first_violation_at(fs: Seq<TaggedFieldModel>, i: int)
    requires
        0 <= i < fs.len() - 1,
        forall|k: int| 0 <= k < i ==> #[trigger] fs[k].tag < fs[k + 1].tag,
        fs[i].tag >= fs[i + 1].tag,
    ensures
        first_tag_violation(fs) == i,
    decreases i,
{
    if i == 0 {
    } else {
        assert(fs[0].tag < fs[1].tag);
        lemma_first_violation_at(fs.drop_first(), i - 1);
    }
}

/// When every adjacent pair increases there is no violation.
proof fn lemma_no_violation(fs: Seq<TaggedFieldModel>)
    requires
        forall|k: int| 0 <= k < fs.len() - 1 ==> #[trigger] fs[k].tag < fs[k + 1].tag,
    ensures
        first_tag_violation(fs) == -1,
    decreases fs.len(),
{
    if fs.len() >= 2 {
        assert(fs[0].tag < fs[1].tag);
        lemma_no_violation(fs.drop_first());
    }
}

/// Where `first_tag_violation` points, an adjacent pair fails to increase.
proof fn lemma_first_violation_bounds(fs: Seq<TaggedFieldModel>)
    ensures
        first_tag_violation(fs) == -1 || (0 <= first_tag_violation(fs) < fs.len() - 1
            && fs[first_tag_violation(fs)].tag >= fs[first_tag_violation(fs) + 1].tag),
    decreases fs.len(),
{
    if fs.len() >= 2 && fs[0].tag < fs[1].tag {
        lemma_first_violation_bounds(fs.drop_first());
    }
}

/// A list with a tag-order violation is not strictly increasing.
pub proof fn lemma_violation_means_not_increasing(fs: Seq<TaggedFieldModel>)
    requires
        first_tag_violation(fs) != -1,
    ensures
        !tags_strictly_increasing(fs),
{
    lemma_first_violation_bounds(fs);
    let v = first_tag_violation(fs);
    assert(!(fs[v].tag < fs[v + 1].tag));
}

/// Writes a tagged-fields section: validates that tags strictly increase,
/// then writes the count and each field. On a violation it reports the
/// first offending pair and writes nothing.
pub fn k_write_unknown_tagged_fields(out: &mut Vec<u8>, fields: &[RawTaggedField]) -> (r: Result<
    (),
    EncodeError,
>)
    requires
        fields@.len() <= 0xFFFF_FFFF,
        forall|i: int|
            0 <= i < fields@.len() ==> #[trigger] fields@[i].data@.len() + 1 <= 0xFFFF_FFFF,
    ensures
        match r {
            Ok(()) => tags_strictly_increasing(fields.deep_view()) && final(out)@ == old(out)@
                + enc_tagged_section(fields.deep_view()),
            Err(e) => {
                let v = first_tag_violation(fields.deep_view());
                v != -1 && e == (EncodeError::InvalidTagOrder {
                    earlier: fields.deep_view()[v].tag,
                    later: fields.deep_view()[v + 1].tag,
                }) && final(out)@ == old(out)@
            },
        },
{
    let ghost fv = fields.deep_view();
    let n = fields.len();
    assert(fv.len() == fields@.len());
    assert(forall|i: int| 0 <= i < fv.len() ==> fv[i] == fields@[i]@);
    let mut i: usize = 0;
    while n > 0 && i < n - 1
        invariant
            n == fields@.len(),
            fv == fields.deep_view(),
            fv.len() == n,
            forall|i0: int| 0 <= i0 < fv.len() ==> fv[i0] == fields@[i0]@,
            0 <= i <= n,
            forall|k: int| 0 <= k < i ==> #[trigger] fv[k].tag < fv[k + 1].tag,
        decreases n - i,
    {
        let t0 = fields[i].tag;
        let t1 = fields[i + 1].tag;
        if t0 >= t1 {
            proof {
                lemma_first_violation_at(fv, i as int);
            }
            return Err(EncodeError::InvalidTagOrder { earlier: t0, later: t1 });
        }
        i = i + 1;
    }
    proof {
        lemma_no_violation(fv);
        lemma_adjacent_increasing(fv);
    }
    crate::varint::write_uvarint32(out, n as u32);
    let ghost after_count = out@;
    assert(after_count == old(out)@ + enc_uvarint(fv.len()));
    let mut j: usize = 0;
    while j < n
        invariant
            n == fields@.len(),
            fv == fields.deep_view(),
            fv.len() == n,
            forall|i0: int| 0 <= i0 < fv.len() ==> fv[i0] == fields@[i0]@,
            forall|i0: int|
                0 <= i0 < fields@.len() ==> #[trigger] fields@[i0].data@.len() + 1 <= 0xFFFF_FFFF,
            0 <= j <= n,
            out@ == after_count + enc_tagged_fields_seq(fv.take(j as int)),
            after_count == old(out)@ + enc_uvarint(fv.len()),
        decreases n - j,
    {
        fields[j].write(out);
        proof {
            lemma_enc_seq_snoc(fv.take(j as int), fv[j as int]);
            assert(fv.take(j as int).push(fv[j as int]) =~= fv.take(j as int + 1));
        }
        j = j + 1;
    }
    assert(fv.take(n as int) =~= fv);
    assert(out@ =~= old(out)@ + enc_tagged_section(fv));
    Ok(())
}

/// Reads a tagged-fields section at `pos`: the count, then that many
/// fields, refusing duplicate tags.
#[verifier::loop_isolation(false)]
pub fn k_read_unknown_tagged_fields(buf: &Vec<u8>, pos: usize) -> (r: Result<
    (Vec<RawTaggedField>, usize),
    DecodeError,
>)
    ensures
        match r {
            Ok((v, n)) => dec_tagged_section(buf@, pos as int) == Ok::<
                (Seq<TaggedFieldModel>, int),
                DecodeError,
            >((v.deep_view(), n as int)),
            Err(e) => dec_tagged_section(buf@, pos as int) == Err::<
                (Seq<TaggedFieldModel>, int),
                DecodeError,
            >(e),
        },
{
    let ghost s = buf@;
    let k: u32;
    let mut cur: usize;
    match crate::varint::read_uvarint32(buf, pos) {
        Ok((kk, p1)) => {
            k = kk;
            cur = p1;
        },
        Err(e) => {
            return Err(e);
        },
    }
    let ghost p1 = cur as int;
    let mut acc: Vec<RawTaggedField> = Vec::new();
    let mut i: u32 = 0;
    while i < k
        invariant
            buf@ == s,
            0 <= i <= k,
            dec_tagged_entries(s, p1, k as nat) == (match dec_tagged_entries(
                s,
                cur as int,
                (k - i) as nat,
            ) {
                Ok((rest, p)) => Ok::<(Seq<TaggedFieldModel>, int), DecodeError>(
                    (acc.deep_view() + rest, p),
                ),
                Err(e) => Err::<(Seq<TaggedFieldModel>, int), DecodeError>(e),
            }),
        decreases k - i,
    {
        match RawTaggedField::read(buf, cur) {
            Ok((f, p2)) => {
                let ghost acc_view = acc.deep_view();
                proof {
                    let rest_dec = dec_tagged_entries(s, p2 as int, (k - i - 1) as nat);
                    match rest_dec {
                        Ok((rest, p)) => {
                            assert(acc_view.push(f@) + rest =~= acc_view + (seq![f@] + rest));
                        },
                        Err(_) => {},
                    }
                }
                acc.push(f);
                cur = p2;
                proof {
                    assert(acc.deep_view() =~= acc_view.push(f@));
                }
                i = i + 1;
            },
            Err(e) => {
                proof {
                    assert(dec_tagged_entries(s, cur as int, (k - i) as nat) == Err::<
                        (Seq<TaggedFieldModel>, int),
                        DecodeError,
                    >(e));
                }
                return Err(e);
            },
        }
    }
    assert(dec_tagged_entries(s, cur as int, 0) == Ok::<(Seq<TaggedFieldModel>, int), DecodeError>(
        (Seq::empty(), cur as int),
    ));
    assert(acc.deep_view() + Seq::<TaggedFieldModel>::empty() =~= acc.deep_view());
    let ghost fs = acc.deep_view();
    let n = acc.len();
    assert(fs.len() == n);
    let mut a: usize = 0;
    while a < n
        invariant
            n == acc.len(),
            fs == acc.deep_view(),
            fs.len() == n,
            0 <= a <= n,
            forall|x: int, y: int| 0 <= x < y < a ==> fs[x].tag != fs[y].tag,
        decreases n - a,
    {
        let mut b: usize = 0;
        while b < a
            invariant
                n == acc.len(),
                fs == acc.deep_view(),
                fs.len() == n,
                0 <= b <= a < n,
                forall|x: int| 0 <= x < b ==> fs[x].tag != fs[a as int].tag,
            decreases a - b,
        {
            if acc[b].tag == acc[a].tag {
                proof {
                    assert(fs[b as int].tag == acc@[b as int].tag);
                    assert(fs[a as int].tag == acc@[a as int].tag);
                    assert((b as int) < (a as int) && (a as int) < fs.len());
                    assert(fs[b as int].tag == fs[a as int].tag);
                    assert(has_duplicate_tags(fs));
                }
                return Err(DecodeError::Malformed);
            }
            b = b + 1;
        }
        a = a + 1;
    }
    assert(!has_duplicate_tags(fs));
    Ok((acc, cur))
}

/// Round trip for one tagged field.
pub proof fn lemma_tagged_field_round_trip(prefix: Seq<u8>, f: TaggedFieldModel, suffix: Seq<u8>)
    requires
        f.data.len() <= MAX_COMPACT_LEN,
    ensures
        dec_tagged_field(prefix + enc_tagged_field(f) + suffix, prefix.len() as int) == Ok::<
            (TaggedFieldModel, int),
            DecodeError,
        >((f, prefix.len() as int + enc_tagged_field(f).len() as int)),
{
    let s = prefix + enc_tagged_field(f) + suffix;
    let p = prefix.len() as int;
    let tu = u32_of_i32(f.tag);
    let tag_bytes = enc_uvarint(tu as nat);
    let data_bytes = enc_compact_bytes(Option::Some(f.data));
    assert(s =~= prefix + tag_bytes + (data_bytes + suffix));
    crate::varint::lemma_uvarint32_round_trip(prefix, tu, data_bytes + suffix);
    assert(s =~= (prefix + tag_bytes) + data_bytes + suffix);
    crate::strings::lemma_compact_bytes_round_trip(
        prefix + tag_bytes,
        Option::Some(f.data),
        suffix,
        false,
    );
    assert(i32_of_u32(u32_of_i32(f.tag)) == f.tag);
}

/// Round trip for a run of tagged fields.
#[verifier::rlimit(50)]
pub proof fn lemma_tagged_entries_round_trip(
    prefix: Seq<u8>,
    fs: Seq<TaggedFieldModel>,
    suffix: Seq<u8>,
)
    requires
        forall|i: int| 0 <= i < fs.len() ==> #[trigger] fs[i].data.len() <= MAX_COMPACT_LEN,
    ensures
        dec_tagged_entries(prefix + enc_tagged_fields_seq(fs) + suffix, prefix.len() as int, fs.len())
            == Ok::<(Seq<TaggedFieldModel>, int), DecodeError>(
            (fs, prefix.len() as int + enc_tagged_fields_seq(fs).len() as int),
        ),
    decreases fs.len(),
{
    let s = prefix + enc_tagged_fields_seq(fs) + suffix;
    let p = prefix.len() as int;
    if fs.len() == 0 {
        assert(s =~= prefix + suffix);
        assert(fs =~= Seq::<TaggedFieldModel>::empty());
        assert(enc_tagged_fields_seq(fs).len() == 0);
    } else {
        let head = enc_tagged_field(fs[0]);
        let tail = enc_tagged_fields_seq(fs.drop_first());
        assert(s =~= prefix + head + (tail + suffix));
        lemma_tagged_field_round_trip(prefix, fs[0], tail + suffix);
        assert(dec_tagged_field(s, p) == Ok::<(TaggedFieldModel, int), DecodeError>(
            (fs[0], p + head.len() as int),
        ));
        assert(s =~= (prefix + head) + tail + suffix);
        lemma_tagged_entries_round_trip(prefix + head, fs.drop_first(), suffix);
        assert(dec_tagged_entries(s, p + head.len() as int, fs.drop_first().len()) == Ok::<
            (Seq<TaggedFieldModel>, int),
            DecodeError,
        >((fs.drop_first(), p + head.len() as int + tail.len() as int)));
        assert(seq![fs[0]] + fs.drop_first() =~= fs);
        assert(enc_tagged_fields_seq(fs).len() == head.len() + tail.len());
        assert(dec_tagged_entries(s, p, fs.len()) == Ok::<
            (Seq<TaggedFieldModel>, int),
            DecodeError,
        >((fs, p + enc_tagged_fields_seq(fs).len() as int)));
    }
}

/// The round-trip law for tagged-fields sections: a strictly increasing
/// list, once written, reads back as exactly the same list, whatever bytes
/// precede or follow it.
pub proof fn lemma_tagged_section_round_trip(
    prefix: Seq<u8>,
    fs: Seq<TaggedFieldModel>,
    suffix: Seq<u8>,
)
    requires
        tags_strictly_increasing(fs),
        fs.len() <= 0xFFFF_FFFF,
        forall|i: int| 0 <= i < fs.len() ==> #[trigger] fs[i].data.len() <= MAX_COMPACT_LEN,
    ensures
        dec_tagged_section(prefix + enc_tagged_section(fs) + suffix, prefix.len() as int) == Ok::<
            (Seq<TaggedFieldModel>, int),
            DecodeError,
        >((fs, prefix.len() as int + enc_tagged_section(fs).len() as int)),
{
    let s = prefix + enc_tagged_section(fs) + suffix;
    let count_bytes = enc_uvarint(fs.len());
    let body = enc_tagged_fields_seq(fs);
    assert(s =~= prefix + count_bytes + (body + suffix));
    crate::varint::lemma_uvarint32_round_trip(prefix, fs.len() as u32, body + suffix);
    assert(s =~= (prefix + count_bytes) + body + suffix);
    lemma_tagged_entries_round_trip(prefix + count_bytes, fs, suffix);
    assert(!has_duplicate_tags(fs));
}

/// Re-encoding what a write produced and a read recovered gives the same
/// bytes: deterministic output, as a corollary of the round trip.
pub proof fn lemma_tagged_section_reencode(fs: Seq<TaggedFieldModel>)
    requires
        tags_strictly_increasing(fs),
        fs.len() <= 0xFFFF_FFFF,
        forall|i: int| 0 <= i < fs.len() ==> #[trigger] fs[i].data.len() <= MAX_COMPACT_LEN,
    ensures
        dec_tagged_section(enc_tagged_section(fs), 0) matches Ok((got, _)) && enc_tagged_section(
            got,
        ) == enc_tagged_section(fs),
{
    lemma_tagged_section_round_trip(Seq::empty(), fs, Seq::empty());
    assert(Seq::<u8>::empty() + enc_tagged_section(fs) + Seq::<u8>::empty() =~= enc_tagged_section(
        fs,
    ));
}

} // verus!
