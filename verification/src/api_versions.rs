//! The ApiVersions message bodies. At versions 0 to 2 the request carries
//! no fields at all: its encoded body is empty, and decoding consumes
//! nothing. The version 0 response is an error code followed by a classic
//! array of supported version ranges, one per API key.

use vstd::prelude::*;
use crate::errors::{DecodeError, EncodeError};
use crate::primitives::{enc_i16, enc_i32, dec_i16, dec_i32, write_i16, write_i32, read_i16, read_i32};
use crate::varint::{enc_uvarint, dec_uvarint32, write_uvarint32, read_uvarint32};
use crate::tagged_fields::{
    RawTaggedField,
    TaggedFieldModel,
    enc_tagged_section,
    dec_tagged_section,
    tags_strictly_increasing,
    first_tag_violation,
    k_write_unknown_tagged_fields,
    k_read_unknown_tagged_fields,
};

verus! {

/// An ApiVersions request at versions 0 to 2.
#[derive(Debug, Clone, Copy, PartialEq, Eq, Structural)]
pub struct ApiVersionsRequest {

}

/// The wire bytes of an ApiVersions request at versions 0 to 2: none.
pub open spec fn enc_api_versions_request(r: ApiVersionsRequest) -> Seq<u8> {
    Seq::empty()
}

/// Spec-level decoder: an empty body always decodes, consuming nothing.
pub open spec fn dec_api_versions_request(s: Seq<u8>, pos: int) -> Result<
    (ApiVersionsRequest, int),
    DecodeError,
> {
    Ok((ApiVersionsRequest {  }, pos))
}

impl ApiVersionsRequest {
    /// An empty request.
    pub fn new() -> (r: ApiVersionsRequest)
        ensures
            r == (ApiVersionsRequest {  }),
    {
        ApiVersionsRequest {  }
    }

    /// Appends the wire bytes of this request: none.
    pub fn write(&self, out: &mut Vec<u8>)
        ensures
            final(out)@ == old(out)@ + enc_api_versions_request(*self),
    {
        assert(out@ =~= old(out)@ + enc_api_versions_request(*self));
    }

    /// Reads a request at `pos`, consuming nothing.
    pub fn read(buf: &Vec<u8>, pos: usize) -> (r: Result<(ApiVersionsRequest, usize), DecodeError>)
        ensures
            match r {
                Ok((v, n)) => dec_api_versions_request(buf@, pos as int) == Ok::<
                    (ApiVersionsRequest, int),
                    DecodeError,
                >((v, n as int)),
                Err(e) => false,
            },
    {
        Ok((ApiVersionsRequest {  }, pos))
    }
}

/// The version range one API key supports: a nested data record of the
/// ApiVersions response.
#[derive(Debug, Clone, Copy, PartialEq, Eq, Structural)]
pub struct ApiVersion {
    pub api_key: i16,
    pub min_version: i16,
    pub max_version: i16,
}

/// An ApiVersions response at version 0: an error code, then a classic
/// array of version ranges.
#[derive(Debug, Clone, PartialEq)]
pub struct ApiVersionsResponse {
    pub error_code: i16,
    pub api_keys: Vec<ApiVersion>,
}

/// The wire bytes of one version-range record.
pub open spec fn enc_api_version(v: ApiVersion) -> Seq<u8> {
    enc_i16(v.api_key) + enc_i16(v.min_version) + enc_i16(v.max_version)
}

/// The concatenated wire bytes of a run of version-range records.
pub open spec fn enc_api_versions_seq(vs: Seq<ApiVersion>) -> Seq<u8>
    decreases vs.len(),
{
    if vs.len() == 0 {
        Seq::empty()
    } else {
        enc_api_version(vs[0]) + enc_api_versions_seq(vs.drop_first())
    }
}

/// The wire bytes of a version 0 response: the error code, the classic
/// array count, then the records.
pub open spec fn enc_api_versions_response(error_code: i16, vs: Seq<ApiVersion>) -> Seq<u8> {
    enc_i16(error_code) + enc_i32(vs.len() as i32) + enc_api_versions_seq(vs)
}

/// Spec-level decoder for one version-range record at `pos`.
pub open spec fn dec_api_version(s: Seq<u8>, pos: int) -> Result<(ApiVersion, int), DecodeError> {
    match dec_i16(s, pos) {
        Ok((api_key, p1)) => match dec_i16(s, p1) {
            Ok((min_version, p2)) => match dec_i16(s, p2) {
                Ok((max_version, p3)) => Ok(
                    (ApiVersion { api_key, min_version, max_version }, p3),
                ),
                Err(e) => Err(e),
            },
            Err(e) => Err(e),
        },
        Err(e) => Err(e),
    }
}

/// Spec-level decoder for `k` version-range records in a row.
pub open spec fn dec_api_versions_entries(s: Seq<u8>, pos: int, k: nat) -> Result<
    (Seq<ApiVersion>, int),
    DecodeError,
>
    decreases k,
{
    if k == 0 {
        Ok((Seq::empty(), pos))
    } else {
        match dec_api_version(s, pos) {
            Ok((v, p1)) => match dec_api_versions_entries(s, p1, (k - 1) as nat) {
                Ok((rest, p2)) => Ok((seq![v] + rest, p2)),
                Err(e) => Err(e),
            },
            Err(e) => Err(e),
        }
    }
}

/// Spec-level decoder for a version 0 response at `pos`. A negative array
/// count is refused: the array is not nullable.
pub open spec fn dec_api_versions_response(s: Seq<u8>, pos: int) -> Result<
    ((i16, Seq<ApiVersion>), int),
    DecodeError,
> {
    match dec_i16(s, pos) {
        Ok((error_code, p1)) => match dec_i32(s, p1) {
            Ok((n, p2)) => if n < 0 {
                Err(DecodeError::Malformed)
            } else {
                match dec_api_versions_entries(s, p2, n as nat) {
                    Ok((vs, p3)) => Ok(((error_code, vs), p3)),
                    Err(e) => Err(e),
                }
            },
            Err(e) => Err(e),
        },
        Err(e) => Err(e),
    }
}

impl ApiVersion {
    /// A record with the given fields.
    pub fn new(api_key: i16, min_version: i16, max_version: i16) -> (r: ApiVersion)
        ensures
            r == (ApiVersion { api_key, min_version, max_version }),
    {
        ApiVersion { api_key, min_version, max_version }
    }

    /// Appends the wire bytes of this record.
    pub fn write(&self, out: &mut Vec<u8>)
        ensures
            final(out)@ == old(out)@ + enc_api_version(*self),
    {
        write_i16(out, self.api_key);
        write_i16(out, self.min_version);
        write_i16(out, self.max_version);
        assert(out@ =~= old(out)@ + enc_api_version(*self));
    }

    /// Reads a record at `pos`.
    pub fn read(buf: &Vec<u8>, pos: usize) -> (r: Result<(ApiVersion, usize), DecodeError>)
        ensures
            match r {
                Ok((v, n)) => dec_api_version(buf@, pos as int) == Ok::<
                    (ApiVersion, int),
                    DecodeError,
                >((v, n as int)),
                Err(e) => dec_api_version(buf@, pos as int) == Err::<
                    (ApiVersion, int),
                    DecodeError,
                >(e),
            },
    {
        match read_i16(buf, pos) {
            Ok((api_key, p1)) => match read_i16(buf, p1) {
                Ok((min_version, p2)) => match read_i16(buf, p2) {
                    Ok((max_version, p3)) => Ok(
                        (ApiVersion { api_key, min_version, max_version }, p3),
                    ),
                    Err(e) => Err(e),
                },
                Err(e) => Err(e),
            },
            Err(e) => Err(e),
        }
    }
}

/// Appending a record to a run appends its bytes to the encoding.
pub proof fn lemma_api_versions_seq_snoc(vs: Seq<ApiVersion>, v: ApiVersion)
    ensures
        enc_api_versions_seq(vs.push(v)) == enc_api_versions_seq(vs) + enc_api_version(v),
    decreases vs.len(),
{
    let p = vs.push(v);
    assert(enc_api_versions_seq(p) == enc_api_version(p[0]) + enc_api_versions_seq(
        p.drop_first(),
    ));
    if vs.len() == 0 {
        assert(p.drop_first() =~= Seq::<ApiVersion>::empty());
        assert(enc_api_versions_seq(Seq::<ApiVersion>::empty()) == Seq::<u8>::empty());
        assert(p[0] == v);
        assert(enc_api_version(v) + Seq::<u8>::empty() =~= Seq::<u8>::empty() + enc_api_version(
            v,
        ));
    } else {
        assert(p.drop_first() =~= vs.drop_first().push(v));
        lemma_api_versions_seq_snoc(vs.drop_first(), v);
        assert(p[0] == vs[0]);
        assert(enc_api_version(vs[0]) + (enc_api_versions_seq(vs.drop_first()) + enc_api_version(
            v,
        )) =~= (enc_api_version(vs[0]) + enc_api_versions_seq(vs.drop_first())) + enc_api_version(
            v,
        ));
    }
}

impl ApiVersionsResponse {
    /// A response with the given error code and records.
    pub fn new(error_code: i16, api_keys: Vec<ApiVersion>) -> (r: ApiVersionsResponse)
        ensures
            r.error_code == error_code,
            r.api_keys@ == api_keys@,
    {
        ApiVersionsResponse { error_code, api_keys }
    }

    /// Appends the wire bytes of this response: the error code, the array
    /// count, then each record in order.
    #[verifier::loop_isolation(false)]
    pub fn write(&self, out: &mut Vec<u8>)
        requires
            self.api_keys@.len() <= 0x7FFF_FFFF,
        ensures
            final(out)@ == old(out)@ + enc_api_versions_response(self.error_code, self.api_keys@),
    {
        write_i16(out, self.error_code);
        let n = self.api_keys.len();
        write_i32(out, n as i32);
        let ghost before_entries = out@;
        let mut j: usize = 0;
        while j < n
            invariant
                out@ == before_entries + enc_api_versions_seq(self.api_keys@.take(j as int)),
                0 <= j <= n,
            decreases n - j,
        {
            self.api_keys[j].write(out);
            proof {
                lemma_api_versions_seq_snoc(self.api_keys@.take(j as int), self.api_keys@[j as int]);
                assert(self.api_keys@.take(j as int).push(self.api_keys@[j as int])
                    =~= self.api_keys@.take(j as int + 1));
            }
            j = j + 1;
        }
        assert(self.api_keys@.take(n as int) =~= self.api_keys@);
        assert(out@ =~= old(out)@ + enc_api_versions_response(self.error_code, self.api_keys@));
    }

    /// Reads a version 0 response at `pos`.
    #[verifier::loop_isolation(false)]
    pub fn read(buf: &Vec<u8>, pos: usize) -> (r: Result<(ApiVersionsResponse, usize), DecodeError>)
        ensures
            match r {
                Ok((resp, n)) => dec_api_versions_response(buf@, pos as int) == Ok::<
                    ((i16, Seq<ApiVersion>), int),
                    DecodeError,
                >(((resp.error_code, resp.api_keys@), n as int)),
                Err(e) => dec_api_versions_response(buf@, pos as int) == Err::<
                    ((i16, Seq<ApiVersion>), int),
                    DecodeError,
                >(e),
            },
    {
        let ghost s = buf@;
        let error_code: i16;
        let count: i32;
        let mut cur: usize;
        match read_i16(buf, pos) {
            Ok((ec, p1)) => match read_i32(buf, p1) {
                Ok((n, p2)) => {
                    error_code = ec;
                    count = n;
                    cur = p2;
                },
                Err(e) => {
                    return Err(e);
                },
            },
            Err(e) => {
                return Err(e);
            },
        }
        if count < 0 {
            return Err(DecodeError::Malformed);
        }
        let ghost p2 = cur as int;
        let mut acc: Vec<ApiVersion> = Vec::new();
        let mut i: i32 = 0;
        while i < count
            invariant
                0 <= i <= count,
                dec_api_versions_entries(s, p2, count as nat) == (match dec_api_versions_entries(
                    s,
                    cur as int,
                    (count - i) as nat,
                ) {
                    Ok((rest, p)) => Ok::<(Seq<ApiVersion>, int), DecodeError>(
                        (acc@ + rest, p),
                    ),
                    Err(e) => Err::<(Seq<ApiVersion>, int), DecodeError>(e),
                }),
            decreases count - i,
        {
            match ApiVersion::read(buf, cur) {
                Ok((v, p3)) => {
                    let ghost acc_view = acc@;
                    proof {
                        let rest_dec = dec_api_versions_entries(s, p3 as int, (count - i - 1) as nat);
                        match rest_dec {
                            Ok((rest, p)) => {
                                assert(acc_view.push(v) + rest =~= acc_view + (seq![v] + rest));
                            },
                            Err(_) => {},
                        }
                    }
                    acc.push(v);
                    cur = p3;
                    i = i + 1;
                },
                Err(e) => {
                    return Err(e);
                },
            }
        }
        assert(acc@ + Seq::<ApiVersion>::empty() =~= acc@);
        Ok((ApiVersionsResponse { error_code, api_keys: acc }, cur))
    }
}

/// Round trip for one version-range record.
pub proof fn lemma_api_version_round_trip(prefix: Seq<u8>, v: ApiVersion, suffix: Seq<u8>)
    ensures
        dec_api_version(prefix + enc_api_version(v) + suffix, prefix.len() as int) == Ok::<
            (ApiVersion, int),
            DecodeError,
        >((v, prefix.len() as int + 6)),
{
    let s = prefix + enc_api_version(v) + suffix;
    let a = enc_i16(v.api_key);
    let b = enc_i16(v.min_version);
    let c = enc_i16(v.max_version);
    assert(s =~= prefix + a + (b + c + suffix));
    crate::primitives::lemma_i16_round_trip(prefix, v.api_key, b + c + suffix);
    assert(s =~= (prefix + a) + b + (c + suffix));
    crate::primitives::lemma_i16_round_trip(prefix + a, v.min_version, c + suffix);
    assert(s =~= ((prefix + a) + b) + c + suffix);
    crate::primitives::lemma_i16_round_trip((prefix + a) + b, v.max_version, suffix);
}

/// Round trip for a run of version-range records.
pub proof fn lemma_api_versions_entries_round_trip(
    prefix: Seq<u8>,
    vs: Seq<ApiVersion>,
    suffix: Seq<u8>,
)
    ensures
        dec_api_versions_entries(
            prefix + enc_api_versions_seq(vs) + suffix,
            prefix.len() as int,
            vs.len(),
        ) == Ok::<(Seq<ApiVersion>, int), DecodeError>(
            (vs, prefix.len() as int + enc_api_versions_seq(vs).len() as int),
        ),
    decreases vs.len(),
{
    let s = prefix + enc_api_versions_seq(vs) + suffix;
    let p = prefix.len() as int;
    if vs.len() == 0 {
        assert(s =~= prefix + suffix);
        assert(vs =~= Seq::<ApiVersion>::empty());
    } else {
        let head = enc_api_version(vs[0]);
        let tail = enc_api_versions_seq(vs.drop_first());
        assert(s =~= prefix + head + (tail + suffix));
        lemma_api_version_round_trip(prefix, vs[0], tail + suffix);
        assert(dec_api_version(s, p) == Ok::<(ApiVersion, int), DecodeError>((vs[0], p + 6)));
        assert(s =~= (prefix + head) + tail + suffix);
        lemma_api_versions_entries_round_trip(prefix + head, vs.drop_first(), suffix);
        assert(seq![vs[0]] + vs.drop_first() =~= vs);
        assert(enc_api_versions_seq(vs).len() == head.len() + tail.len());
    }
}

/// The round-trip law for the version 0 ApiVersions response.
pub proof fn lemma_api_versions_response_round_trip(
    prefix: Seq<u8>,
    error_code: i16,
    vs: Seq<ApiVersion>,
    suffix: Seq<u8>,
)
    requires
        vs.len() <= 0x7FFF_FFFF,
    ensures
        dec_api_versions_response(
            prefix + enc_api_versions_response(error_code, vs) + suffix,
            prefix.len() as int,
        ) == Ok::<((i16, Seq<ApiVersion>), int), DecodeError>(
            (
                (error_code, vs),
                prefix.len() as int + enc_api_versions_response(error_code, vs).len() as int,
            ),
        ),
{
    let s = prefix + enc_api_versions_response(error_code, vs) + suffix;
    let p = prefix.len() as int;
    let a = enc_i16(error_code);
    let b = enc_i32(vs.len() as i32);
    let body = enc_api_versions_seq(vs);
    assert(s =~= prefix + a + (b + body + suffix));
    crate::primitives::lemma_i16_round_trip(prefix, error_code, b + body + suffix);
    assert(s =~= (prefix + a) + b + (body + suffix));
    crate::primitives::lemma_i32_round_trip(prefix + a, vs.len() as i32, body + suffix);
    assert(s =~= ((prefix + a) + b) + body + suffix);
    lemma_api_versions_entries_round_trip(((prefix + a) + b), vs, suffix);
    assert(enc_api_versions_response(error_code, vs).len() == 6 + body.len());
}

/// Round trip for the ApiVersions request body.
pub proof fn lemma_api_versions_request_round_trip(
    prefix: Seq<u8>,
    r: ApiVersionsRequest,
    suffix: Seq<u8>,
)
    ensures
        dec_api_versions_request(
            prefix + enc_api_versions_request(r) + suffix,
            prefix.len() as int,
        ) == Ok::<(ApiVersionsRequest, int), DecodeError>((r, prefix.len() as int)),
{
}

} // verus!

verus! {

/// The version range one API key supports, in the flexible form of the
/// version 3 response: the record ends with its own tagged-fields section.
#[derive(Debug, Clone, PartialEq)]
pub struct ApiVersionV3 {
    pub api_key: i16,
    pub min_version: i16,
    pub max_version: i16,
    pub unknown_tagged_fields: Vec<RawTaggedField>,
}

/// An ApiVersions response at version 3: flexible encoding throughout. The
/// record array is compact, and the struct and every nested record carry a
/// trailing tagged-fields section.
#[derive(Debug, Clone, PartialEq)]
pub struct ApiVersionsResponseV3 {
    pub error_code: i16,
    pub api_keys: Vec<ApiVersionV3>,
    pub throttle_time_ms: i32,
    pub unknown_tagged_fields: Vec<RawTaggedField>,
}

/// The mathematical shape of a flexible version-range record.
pub ghost struct ApiVersionV3Model {
    pub api_key: i16,
    pub min_version: i16,
    pub max_version: i16,
    pub unknown_tagged_fields: Seq<TaggedFieldModel>,
}

/// The mathematical shape of a version 3 response.
pub ghost struct ApiVersionsResponseV3Model {
    pub error_code: i16,
    pub api_keys: Seq<ApiVersionV3Model>,
    pub throttle_time_ms: i32,
    pub unknown_tagged_fields: Seq<TaggedFieldModel>,
}

impl View for ApiVersionV3 {
    type V = ApiVersionV3Model;

    open spec fn view(&self) -> ApiVersionV3Model {
        ApiVersionV3Model {
            api_key: self.api_key,
            min_version: self.min_version,
            max_version: self.max_version,
            unknown_tagged_fields: self.unknown_tagged_fields.deep_view(),
        }
    }
}

impl DeepView for ApiVersionV3 {
    type V = ApiVersionV3Model;

    open spec fn deep_view(&self) -> ApiVersionV3Model {
        self@
    }
}

impl View for ApiVersionsResponseV3 {
    type V = ApiVersionsResponseV3Model;

    open spec fn view(&self) -> ApiVersionsResponseV3Model {
        ApiVersionsResponseV3Model {
            error_code: self.error_code,
            api_keys: self.api_keys.deep_view(),
            throttle_time_ms: self.throttle_time_ms,
            unknown_tagged_fields: self.unknown_tagged_fields.deep_view(),
        }
    }
}

/// The wire bytes of one flexible version-range record.
pub open spec fn enc_api_version_v3(m: ApiVersionV3Model) -> Seq<u8> {
    enc_i16(m.api_key) + enc_i16(m.min_version) + enc_i16(m.max_version) + enc_tagged_section(
        m.unknown_tagged_fields,
    )
}

/// The concatenated wire bytes of a run of flexible records.
pub open spec fn enc_api_versions_v3_seq(vs: Seq<ApiVersionV3Model>) -> Seq<u8>
    decreases vs.len(),
{
    if vs.len() == 0 {
        Seq::empty()
    } else {
        enc_api_version_v3(vs[0]) + enc_api_versions_v3_seq(vs.drop_first())
    }
}

/// The wire bytes of a version 3 response: error code, compact array of
/// records, throttle time, trailing tagged-fields section.
pub open spec fn enc_api_versions_response_v3(m: ApiVersionsResponseV3Model) -> Seq<u8> {
    enc_i16(m.error_code) + enc_uvarint((m.api_keys.len() + 1) as nat) + enc_api_versions_v3_seq(
        m.api_keys,
    ) + enc_i32(m.throttle_time_ms) + enc_tagged_section(m.unknown_tagged_fields)
}

/// Whether every tagged-fields list inside the response is writable: each
/// strictly increasing by tag.
pub open spec fn response_v3_tags_increasing(m: ApiVersionsResponseV3Model) -> bool {
    &&& tags_strictly_increasing(m.unknown_tagged_fields)
    &&& forall|i: int|
        0 <= i < m.api_keys.len() ==> tags_strictly_increasing(
            #[trigger] m.api_keys[i].unknown_tagged_fields,
        )
}

/// Spec-level decoder for one flexible version-range record at `pos`.
pub open spec fn dec_api_version_v3(s: Seq<u8>, pos: int) -> Result<
    (ApiVersionV3Model, int),
    DecodeError,
> {
    match dec_i16(s, pos) {
        Ok((api_key, p1)) => match dec_i16(s, p1) {
            Ok((min_version, p2)) => match dec_i16(s, p2) {
                Ok((max_version, p3)) => match dec_tagged_section(s, p3) {
                    Ok((fields, p4)) => Ok(
                        (
                            ApiVersionV3Model {
                                api_key,
                                min_version,
                                max_version,
                                unknown_tagged_fields: fields,
                            },
                            p4,
                        ),
                    ),
                    Err(e) => Err(e),
                },
                Err(e) => Err(e),
            },
            Err(e) => Err(e),
        },
        Err(e) => Err(e),
    }
}

/// Spec-level decoder for `k` flexible records in a row.
pub open spec fn dec_api_versions_v3_entries(s: Seq<u8>, pos: int, k: nat) -> Result<
    (Seq<ApiVersionV3Model>, int),
    DecodeError,
>
    decreases k,
{
    if k == 0 {
        Ok((Seq::empty(), pos))
    } else {
        match dec_api_version_v3(s, pos) {
            Ok((v, p1)) => match dec_api_versions_v3_entries(s, p1, (k - 1) as nat) {
                Ok((rest, p2)) => Ok((seq![v] + rest, p2)),
                Err(e) => Err(e),
            },
            Err(e) => Err(e),
        }
    }
}

/// Spec-level decoder for a version 3 response at `pos`. A zero compact
/// count is a null array, which the schema does not allow.
pub open spec fn dec_api_versions_response_v3(s: Seq<u8>, pos: int) -> Result<
    (ApiVersionsResponseV3Model, int),
    DecodeError,
> {
    match dec_i16(s, pos) {
        Ok((error_code, p1)) => match dec_uvarint32(s, p1) {
            Ok((n, p2)) => if n == 0 {
                Err(DecodeError::Malformed)
            } else {
                match dec_api_versions_v3_entries(s, p2, (n - 1) as nat) {
                    Ok((vs, p3)) => match dec_i32(s, p3) {
                        Ok((throttle_time_ms, p4)) => match dec_tagged_section(s, p4) {
                            Ok((fields, p5)) => Ok(
                                (
                                    ApiVersionsResponseV3Model {
                                        error_code,
                                        api_keys: vs,
                                        throttle_time_ms,
                                        unknown_tagged_fields: fields,
                                    },
                                    p5,
                                ),
                            ),
                            Err(e) => Err(e),
                        },
                        Err(e) => Err(e),
                    },
                    Err(e) => Err(e),
                }
            },
            Err(e) => Err(e),
        },
        Err(e) => Err(e),
    }
}

impl ApiVersionV3 {
    /// A record with the given fields and no unknown tagged fields.
    pub fn new(api_key: i16, min_version: i16, max_version: i16) -> (r: ApiVersionV3)
        ensures
            r.api_key == api_key,
            r.min_version == min_version,
            r.max_version == max_version,
            r@.unknown_tagged_fields.len() == 0,
    {
        let r = ApiVersionV3 {
            api_key,
            min_version,
            max_version,
            unknown_tagged_fields: Vec::new(),
        };
        proof {
            assert(r.unknown_tagged_fields.deep_view() =~= Seq::<TaggedFieldModel>::empty());
        }
        r
    }

    /// Appends the wire bytes of this record. On a tag-order violation in
    /// its tagged fields the fixed fields are already in the buffer.
    pub fn write(&self, out: &mut Vec<u8>) -> (r: Result<(), EncodeError>)
        requires
            self.unknown_tagged_fields@.len() <= 0xFFFF_FFFF,
            forall|i: int|
                0 <= i < self.unknown_tagged_fields@.len()
                    ==> #[trigger] self.unknown_tagged_fields@[i].data@.len() + 1 <= 0xFFFF_FFFF,
        ensures
            match r {
                Ok(()) => tags_strictly_increasing(self@.unknown_tagged_fields) && final(out)@
                    == old(out)@ + enc_api_version_v3(self@),
                Err(e) => {
                    let v = first_tag_violation(self@.unknown_tagged_fields);
                    v != -1 && e == (EncodeError::InvalidTagOrder {
                        earlier: self@.unknown_tagged_fields[v].tag,
                        later: self@.unknown_tagged_fields[v + 1].tag,
                    }) && final(out)@ == old(out)@ + enc_i16(self.api_key) + enc_i16(
                        self.min_version,
                    ) + enc_i16(self.max_version)
                },
            },
    {
        write_i16(out, self.api_key);
        write_i16(out, self.min_version);
        write_i16(out, self.max_version);
        let rt = k_write_unknown_tagged_fields(out, self.unknown_tagged_fields.as_slice());
        match rt {
            Ok(()) => {
                assert(out@ =~= old(out)@ + enc_api_version_v3(self@));
                Ok(())
            },
            Err(e) => Err(e),
        }
    }

    /// Reads a record at `pos`.
    pub fn read(buf: &Vec<u8>, pos: usize) -> (r: Result<(ApiVersionV3, usize), DecodeError>)
        ensures
            match r {
                Ok((v, n)) => dec_api_version_v3(buf@, pos as int) == Ok::<
                    (ApiVersionV3Model, int),
                    DecodeError,
                >((v@, n as int)),
                Err(e) => dec_api_version_v3(buf@, pos as int) == Err::<
                    (ApiVersionV3Model, int),
                    DecodeError,
                >(e),
            },
    {
        match read_i16(buf, pos) {
            Ok((api_key, p1)) => match read_i16(buf, p1) {
                Ok((min_version, p2)) => match read_i16(buf, p2) {
                    Ok((max_version, p3)) => match k_read_unknown_tagged_fields(buf, p3) {
                        Ok((fields, p4)) => Ok(
                            (
                                ApiVersionV3 {
                                    api_key,
                                    min_version,
                                    max_version,
                                    unknown_tagged_fields: fields,
                                },
                                p4,
                            ),
                        ),
                        Err(e) => Err(e),
                    },
                    Err(e) => Err(e),
                },
                Err(e) => Err(e),
            },
            Err(e) => Err(e),
        }
    }
}

/// Appending a flexible record to a run appends its bytes to the encoding.
pub proof fn lemma_api_versions_v3_seq_snoc(vs: Seq<ApiVersionV3Model>, v: ApiVersionV3Model)
    ensures
        enc_api_versions_v3_seq(vs.push(v)) == enc_api_versions_v3_seq(vs) + enc_api_version_v3(v),
    decreases vs.len(),
{
    let p = vs.push(v);
    assert(enc_api_versions_v3_seq(p) == enc_api_version_v3(p[0]) + enc_api_versions_v3_seq(
        p.drop_first(),
    ));
    if vs.len() == 0 {
        assert(p.drop_first() =~= Seq::<ApiVersionV3Model>::empty());
        assert(enc_api_versions_v3_seq(Seq::<ApiVersionV3Model>::empty()) == Seq::<u8>::empty());
        assert(p[0] == v);
        assert(enc_api_version_v3(v) + Seq::<u8>::empty() =~= Seq::<u8>::empty()
            + enc_api_version_v3(v));
    } else {
        assert(p.drop_first() =~= vs.drop_first().push(v));
        lemma_api_versions_v3_seq_snoc(vs.drop_first(), v);
        assert(p[0] == vs[0]);
        assert(enc_api_version_v3(vs[0]) + (enc_api_versions_v3_seq(vs.drop_first())
            + enc_api_version_v3(v)) =~= (enc_api_version_v3(vs[0]) + enc_api_versions_v3_seq(
            vs.drop_first(),
        )) + enc_api_version_v3(v));
    }
}

impl ApiVersionsResponseV3 {
    /// A response with the given fields and no unknown tagged fields.
    pub fn new(error_code: i16, api_keys: Vec<ApiVersionV3>, throttle_time_ms: i32) -> (r:
        ApiVersionsResponseV3)
        ensures
            r.error_code == error_code,
            r@.api_keys == api_keys.deep_view(),
            r.throttle_time_ms == throttle_time_ms,
            r@.unknown_tagged_fields.len() == 0,
    {
        let r = ApiVersionsResponseV3 {
            error_code,
            api_keys,
            throttle_time_ms,
            unknown_tagged_fields: Vec::new(),
        };
        proof {
            assert(r.unknown_tagged_fields.deep_view() =~= Seq::<TaggedFieldModel>::empty());
        }
        r
    }

    /// Appends the wire bytes of this response. On the first tag-order
    /// violation anywhere inside it, what precedes the offending section is
    /// already in the buffer and the error names the offending pair.
    #[verifier::loop_isolation(false)]
    pub fn write(&self, out: &mut Vec<u8>) -> (r: Result<(), EncodeError>)
        requires
            self.api_keys@.len() + 1 <= 0xFFFF_FFFF,
            self.unknown_tagged_fields@.len() <= 0xFFFF_FFFF,
            forall|i: int|
                0 <= i < self.unknown_tagged_fields@.len()
                    ==> #[trigger] self.unknown_tagged_fields@[i].data@.len() + 1 <= 0xFFFF_FFFF,
            forall|i: int|
                0 <= i < self.api_keys@.len()
                    ==> #[trigger] self.api_keys@[i].unknown_tagged_fields@.len() <= 0xFFFF_FFFF,
            forall|i: int, j: int|
                0 <= i < self.api_keys@.len() && 0 <= j
                    < self.api_keys@[i].unknown_tagged_fields@.len()
                    ==> #[trigger] self.api_keys@[i].unknown_tagged_fields@[j].data@.len() + 1
                    <= 0xFFFF_FFFF,
        ensures
            r matches Ok(()) ==> response_v3_tags_increasing(self@) && final(out)@ == old(out)@
                + enc_api_versions_response_v3(self@),
            r matches Err(e) ==> !response_v3_tags_increasing(self@) && (e matches
            EncodeError::InvalidTagOrder { .. }),
    {
        write_i16(out, self.error_code);
        let n = self.api_keys.len();
        write_uvarint32(out, (n as u32) + 1);
        let ghost before_entries = out@;
        let mut j: usize = 0;
        while j < n
            invariant
                out@ == before_entries + enc_api_versions_v3_seq(self@.api_keys.take(j as int)),
                0 <= j <= n,
                forall|i: int|
                    0 <= i < j ==> tags_strictly_increasing(
                        #[trigger] self@.api_keys[i].unknown_tagged_fields,
                    ),
            decreases n - j,
        {
            let rv = self.api_keys[j].write(out);
            match rv {
                Ok(()) => {},
                Err(e) => {
                    proof {
                        crate::tagged_fields::lemma_violation_means_not_increasing(
                            self@.api_keys[j as int].unknown_tagged_fields,
                        );
                    }
                    return Err(e);
                },
            }
            proof {
                lemma_api_versions_v3_seq_snoc(
                    self@.api_keys.take(j as int),
                    self@.api_keys[j as int],
                );
                assert(self@.api_keys.take(j as int).push(self@.api_keys[j as int])
                    =~= self@.api_keys.take(j as int + 1));
            }
            j = j + 1;
        }
        assert(self@.api_keys.take(n as int) =~= self@.api_keys);
        write_i32(out, self.throttle_time_ms);
        let rt = k_write_unknown_tagged_fields(out, self.unknown_tagged_fields.as_slice());
        match rt {
            Ok(()) => {
                assert(out@ =~= old(out)@ + enc_api_versions_response_v3(self@));
                Ok(())
            },
            Err(e) => {
                proof {
                    crate::tagged_fields::lemma_violation_means_not_increasing(
                        self@.unknown_tagged_fields,
                    );
                }
                Err(e)
            },
        }
    }

    /// Reads a version 3 response at `pos`.
    #[verifier::loop_isolation(false)]
    pub fn read(buf: &Vec<u8>, pos: usize) -> (r: Result<
        (ApiVersionsResponseV3, usize),
        DecodeError,
    >)
        ensures
            match r {
                Ok((resp, n)) => dec_api_versions_response_v3(buf@, pos as int) == Ok::<
                    (ApiVersionsResponseV3Model, int),
                    DecodeError,
                >((resp@, n as int)),
                Err(e) => dec_api_versions_response_v3(buf@, pos as int) == Err::<
                    (ApiVersionsResponseV3Model, int),
                    DecodeError,
                >(e),
            },
    {
        let ghost s = buf@;
        let error_code: i16;
        let count: u32;
        let mut cur: usize;
        match read_i16(buf, pos) {
            Ok((ec, p1)) => match read_uvarint32(buf, p1) {
                Ok((n, p2)) => {
                    error_code = ec;
                    count = n;
                    cur = p2;
                },
                Err(e) => {
                    return Err(e);
                },
            },
            Err(e) => {
                return Err(e);
            },
        }
        if count == 0 {
            return Err(DecodeError::Malformed);
        }
        let k: u32 = count - 1;
        let ghost p2 = cur as int;
        let mut acc: Vec<ApiVersionV3> = Vec::new();
        let mut i: u32 = 0;
        while i < k
            invariant
                0 <= i <= k,
                dec_api_versions_v3_entries(s, p2, k as nat) == (match dec_api_versions_v3_entries(
                    s,
                    cur as int,
                    (k - i) as nat,
                ) {
                    Ok((rest, p)) => Ok::<(Seq<ApiVersionV3Model>, int), DecodeError>(
                        (acc.deep_view() + rest, p),
                    ),
                    Err(e) => Err::<(Seq<ApiVersionV3Model>, int), DecodeError>(e),
                }),
            decreases k - i,
        {
            match ApiVersionV3::read(buf, cur) {
                Ok((v, p3)) => {
                    let ghost acc_view = acc.deep_view();
                    proof {
                        let rest_dec = dec_api_versions_v3_entries(s, p3 as int, (k - i - 1) as nat);
                        match rest_dec {
                            Ok((rest, p)) => {
                                assert(acc_view.push(v@) + rest =~= acc_view + (seq![v@] + rest));
                            },
                            Err(_) => {},
                        }
                    }
                    acc.push(v);
                    cur = p3;
                    proof {
                        assert(acc.deep_view() =~= acc_view.push(v@));
                    }
                    i = i + 1;
                },
                Err(e) => {
                    return Err(e);
                },
            }
        }
        assert(acc.deep_view() + Seq::<ApiVersionV3Model>::empty() =~= acc.deep_view());
        let throttle_time_ms: i32;
        match read_i32(buf, cur) {
            Ok((t, p4)) => {
                throttle_time_ms = t;
                cur = p4;
            },
            Err(e) => {
                return Err(e);
            },
        }
        match k_read_unknown_tagged_fields(buf, cur) {
            Ok((fields, p5)) => Ok(
                (
                    ApiVersionsResponseV3 {
                        error_code,
                        api_keys: acc,
                        throttle_time_ms,
                        unknown_tagged_fields: fields,
                    },
                    p5,
                ),
            ),
            Err(e) => Err(e),
        }
    }
}

} // verus!

verus! {

/// Round trip for one flexible version-range record.
pub proof fn lemma_api_version_v3_round_trip(prefix: Seq<u8>, m: ApiVersionV3Model, suffix: Seq<u8>)
    requires
        tags_strictly_increasing(m.unknown_tagged_fields),
        m.unknown_tagged_fields.len() <= 0xFFFF_FFFF,
        forall|i: int|
            0 <= i < m.unknown_tagged_fields.len()
                ==> #[trigger] m.unknown_tagged_fields[i].data.len()
                <= crate::strings::MAX_COMPACT_LEN,
    ensures
        dec_api_version_v3(prefix + enc_api_version_v3(m) + suffix, prefix.len() as int) == Ok::<
            (ApiVersionV3Model, int),
            DecodeError,
        >((m, prefix.len() as int + enc_api_version_v3(m).len() as int)),
{
    let s = prefix + enc_api_version_v3(m) + suffix;
    let a = enc_i16(m.api_key);
    let b = enc_i16(m.min_version);
    let c = enc_i16(m.max_version);
    let tags = enc_tagged_section(m.unknown_tagged_fields);
    assert(s =~= prefix + a + (b + c + tags + suffix));
    crate::primitives::lemma_i16_round_trip(prefix, m.api_key, b + c + tags + suffix);
    assert(s =~= (prefix + a) + b + (c + tags + suffix));
    crate::primitives::lemma_i16_round_trip(prefix + a, m.min_version, c + tags + suffix);
    assert(s =~= ((prefix + a) + b) + c + (tags + suffix));
    crate::primitives::lemma_i16_round_trip((prefix + a) + b, m.max_version, tags + suffix);
    assert(s =~= (((prefix + a) + b) + c) + tags + suffix);
    crate::tagged_fields::lemma_tagged_section_round_trip(
        ((prefix + a) + b) + c,
        m.unknown_tagged_fields,
        suffix,
    );
    assert(enc_api_version_v3(m).len() == 6 + tags.len());
}

/// Round trip for a run of flexible records.
pub proof fn lemma_api_versions_v3_entries_round_trip(
    prefix: Seq<u8>,
    vs: Seq<ApiVersionV3Model>,
    suffix: Seq<u8>,
)
    requires
        forall|i: int|
            0 <= i < vs.len() ==> tags_strictly_increasing(
                #[trigger] vs[i].unknown_tagged_fields,
            ),
        forall|i: int|
            0 <= i < vs.len() ==> #[trigger] vs[i].unknown_tagged_fields.len() <= 0xFFFF_FFFF,
        forall|i: int, j: int|
            0 <= i < vs.len() && 0 <= j < vs[i].unknown_tagged_fields.len()
                ==> #[trigger] vs[i].unknown_tagged_fields[j].data.len()
                <= crate::strings::MAX_COMPACT_LEN,
    ensures
        dec_api_versions_v3_entries(
            prefix + enc_api_versions_v3_seq(vs) + suffix,
            prefix.len() as int,
            vs.len(),
        ) == Ok::<(Seq<ApiVersionV3Model>, int), DecodeError>(
            (vs, prefix.len() as int + enc_api_versions_v3_seq(vs).len() as int),
        ),
    decreases vs.len(),
{
    let s = prefix + enc_api_versions_v3_seq(vs) + suffix;
    let p = prefix.len() as int;
    if vs.len() == 0 {
        assert(s =~= prefix + suffix);
        assert(vs =~= Seq::<ApiVersionV3Model>::empty());
    } else {
        let head = enc_api_version_v3(vs[0]);
        let tail = enc_api_versions_v3_seq(vs.drop_first());
        assert(s =~= prefix + head + (tail + suffix));
        lemma_api_version_v3_round_trip(prefix, vs[0], tail + suffix);
        assert(dec_api_version_v3(s, p) == Ok::<(ApiVersionV3Model, int), DecodeError>(
            (vs[0], p + head.len() as int),
        ));
        assert(s =~= (prefix + head) + tail + suffix);
        assert(forall|i: int|
            0 <= i < vs.drop_first().len() ==> vs.drop_first()[i] == vs[i + 1]);
        lemma_api_versions_v3_entries_round_trip(prefix + head, vs.drop_first(), suffix);
        assert(seq![vs[0]] + vs.drop_first() =~= vs);
        assert(enc_api_versions_v3_seq(vs).len() == head.len() + tail.len());
    }
}

/// The round-trip law for the version 3 ApiVersions response: a response
/// whose tagged-field lists all strictly increase, once written, reads
/// back as exactly the same value.
/// One decoding step of the version 3 response round trip.
#[verifier::spinoff_prover]
proof fn lemma_v3_step_error_code(prefix: Seq<u8>, m: ApiVersionsResponseV3Model, suffix: Seq<u8>)
    requires
        response_v3_tags_increasing(m),
        m.api_keys.len() + 1 <= 0xFFFF_FFFF,
        m.unknown_tagged_fields.len() <= 0xFFFF_FFFF,
        forall|i: int|
            0 <= i < m.unknown_tagged_fields.len()
                ==> #[trigger] m.unknown_tagged_fields[i].data.len()
                <= crate::strings::MAX_COMPACT_LEN,
        forall|i: int|
            0 <= i < m.api_keys.len() ==> #[trigger] m.api_keys[i].unknown_tagged_fields.len()
                <= 0xFFFF_FFFF,
        forall|i: int, j: int|
            0 <= i < m.api_keys.len() && 0 <= j < m.api_keys[i].unknown_tagged_fields.len()
                ==> #[trigger] m.api_keys[i].unknown_tagged_fields[j].data.len()
                <= crate::strings::MAX_COMPACT_LEN,
    ensures
        ({
            let s = prefix + enc_api_versions_response_v3(m) + suffix;
            let p = prefix.len() as int;
            dec_i16(s, p) == Ok::<(i16, int), DecodeError>((m.error_code, p + 2))
        }),
{
    let s = prefix + enc_api_versions_response_v3(m) + suffix;
    let p = prefix.len() as int;
    let a = enc_i16(m.error_code);
    let count = enc_uvarint((m.api_keys.len() + 1) as nat);
    let body = enc_api_versions_v3_seq(m.api_keys);
    let thr = enc_i32(m.throttle_time_ms);
    let tags = enc_tagged_section(m.unknown_tagged_fields);
    let p2 = p + 2 + count.len() as int;
    let p3 = p2 + body.len() as int;
    assert(s =~= prefix + a + (count + body + thr + tags + suffix));
    crate::primitives::lemma_i16_round_trip(prefix, m.error_code, count + body + thr + tags
        + suffix);
}

/// One decoding step of the version 3 response round trip.
#[verifier::spinoff_prover]
proof fn lemma_v3_step_count(prefix: Seq<u8>, m: ApiVersionsResponseV3Model, suffix: Seq<u8>)
    requires
        response_v3_tags_increasing(m),
        m.api_keys.len() + 1 <= 0xFFFF_FFFF,
        m.unknown_tagged_fields.len() <= 0xFFFF_FFFF,
        forall|i: int|
            0 <= i < m.unknown_tagged_fields.len()
                ==> #[trigger] m.unknown_tagged_fields[i].data.len()
                <= crate::strings::MAX_COMPACT_LEN,
        forall|i: int|
            0 <= i < m.api_keys.len() ==> #[trigger] m.api_keys[i].unknown_tagged_fields.len()
                <= 0xFFFF_FFFF,
        forall|i: int, j: int|
            0 <= i < m.api_keys.len() && 0 <= j < m.api_keys[i].unknown_tagged_fields.len()
                ==> #[trigger] m.api_keys[i].unknown_tagged_fields[j].data.len()
                <= crate::strings::MAX_COMPACT_LEN,
    ensures
        ({
            let s = prefix + enc_api_versions_response_v3(m) + suffix;
            let p = prefix.len() as int;
            let count = enc_uvarint((m.api_keys.len() + 1) as nat);
            dec_uvarint32(s, p + 2) == Ok::<(u32, int), DecodeError>(
                ((m.api_keys.len() + 1) as u32, p + 2 + count.len() as int),
            )
        }),
{
    let s = prefix + enc_api_versions_response_v3(m) + suffix;
    let p = prefix.len() as int;
    let a = enc_i16(m.error_code);
    let count = enc_uvarint((m.api_keys.len() + 1) as nat);
    let body = enc_api_versions_v3_seq(m.api_keys);
    let thr = enc_i32(m.throttle_time_ms);
    let tags = enc_tagged_section(m.unknown_tagged_fields);
    let p2 = p + 2 + count.len() as int;
    let p3 = p2 + body.len() as int;
    assert(s =~= (prefix + a) + count + (body + thr + tags + suffix));
    crate::varint::lemma_uvarint32_round_trip(
        prefix + a,
        (m.api_keys.len() + 1) as u32,
        body + thr + tags + suffix,
    );
}

/// One decoding step of the version 3 response round trip.
#[verifier::spinoff_prover]
proof fn lemma_v3_step_entries(prefix: Seq<u8>, m: ApiVersionsResponseV3Model, suffix: Seq<u8>)
    requires
        response_v3_tags_increasing(m),
        m.api_keys.len() + 1 <= 0xFFFF_FFFF,
        m.unknown_tagged_fields.len() <= 0xFFFF_FFFF,
        forall|i: int|
            0 <= i < m.unknown_tagged_fields.len()
                ==> #[trigger] m.unknown_tagged_fields[i].data.len()
                <= crate::strings::MAX_COMPACT_LEN,
        forall|i: int|
            0 <= i < m.api_keys.len() ==> #[trigger] m.api_keys[i].unknown_tagged_fields.len()
                <= 0xFFFF_FFFF,
        forall|i: int, j: int|
            0 <= i < m.api_keys.len() && 0 <= j < m.api_keys[i].unknown_tagged_fields.len()
                ==> #[trigger] m.api_keys[i].unknown_tagged_fields[j].data.len()
                <= crate::strings::MAX_COMPACT_LEN,
    ensures
        ({
            let s = prefix + enc_api_versions_response_v3(m) + suffix;
            let p = prefix.len() as int;
            let count = enc_uvarint((m.api_keys.len() + 1) as nat);
            let body = enc_api_versions_v3_seq(m.api_keys);
            let p2 = p + 2 + count.len() as int;
            dec_api_versions_v3_entries(s, p2, m.api_keys.len()) == Ok::<
                (Seq<ApiVersionV3Model>, int),
                DecodeError,
            >((m.api_keys, p2 + body.len() as int))
        }),
{
    let s = prefix + enc_api_versions_response_v3(m) + suffix;
    let p = prefix.len() as int;
    let a = enc_i16(m.error_code);
    let count = enc_uvarint((m.api_keys.len() + 1) as nat);
    let body = enc_api_versions_v3_seq(m.api_keys);
    let thr = enc_i32(m.throttle_time_ms);
    let tags = enc_tagged_section(m.unknown_tagged_fields);
    let p2 = p + 2 + count.len() as int;
    let p3 = p2 + body.len() as int;
    assert(s =~= ((prefix + a) + count) + body + (thr + tags + suffix));
    lemma_api_versions_v3_entries_round_trip(
        (prefix + a) + count,
        m.api_keys,
        thr + tags + suffix,
    );
}

/// One decoding step of the version 3 response round trip.
#[verifier::spinoff_prover]
proof fn lemma_v3_step_throttle(prefix: Seq<u8>, m: ApiVersionsResponseV3Model, suffix: Seq<u8>)
    requires
        response_v3_tags_increasing(m),
        m.api_keys.len() + 1 <= 0xFFFF_FFFF,
        m.unknown_tagged_fields.len() <= 0xFFFF_FFFF,
        forall|i: int|
            0 <= i < m.unknown_tagged_fields.len()
                ==> #[trigger] m.unknown_tagged_fields[i].data.len()
                <= crate::strings::MAX_COMPACT_LEN,
        forall|i: int|
            0 <= i < m.api_keys.len() ==> #[trigger] m.api_keys[i].unknown_tagged_fields.len()
                <= 0xFFFF_FFFF,
        forall|i: int, j: int|
            0 <= i < m.api_keys.len() && 0 <= j < m.api_keys[i].unknown_tagged_fields.len()
                ==> #[trigger] m.api_keys[i].unknown_tagged_fields[j].data.len()
                <= crate::strings::MAX_COMPACT_LEN,
    ensures
        ({
            let s = prefix + enc_api_versions_response_v3(m) + suffix;
            let p = prefix.len() as int;
            let count = enc_uvarint((m.api_keys.len() + 1) as nat);
            let body = enc_api_versions_v3_seq(m.api_keys);
            let p3 = p + 2 + count.len() as int + body.len() as int;
            dec_i32(s, p3) == Ok::<(i32, int), DecodeError>((m.throttle_time_ms, p3 + 4))
        }),
{
    let s = prefix + enc_api_versions_response_v3(m) + suffix;
    let p = prefix.len() as int;
    let a = enc_i16(m.error_code);
    let count = enc_uvarint((m.api_keys.len() + 1) as nat);
    let body = enc_api_versions_v3_seq(m.api_keys);
    let thr = enc_i32(m.throttle_time_ms);
    let tags = enc_tagged_section(m.unknown_tagged_fields);
    let p2 = p + 2 + count.len() as int;
    let p3 = p2 + body.len() as int;
    assert(s =~= (((prefix + a) + count) + body) + thr + (tags + suffix));
    crate::primitives::lemma_i32_round_trip(
        ((prefix + a) + count) + body,
        m.throttle_time_ms,
        tags + suffix,
    );
}

/// One decoding step of the version 3 response round trip.
#[verifier::spinoff_prover]
proof fn lemma_v3_step_tags(prefix: Seq<u8>, m: ApiVersionsResponseV3Model, suffix: Seq<u8>)
    requires
        response_v3_tags_increasing(m),
        m.api_keys.len() + 1 <= 0xFFFF_FFFF,
        m.unknown_tagged_fields.len() <= 0xFFFF_FFFF,
        forall|i: int|
            0 <= i < m.unknown_tagged_fields.len()
                ==> #[trigger] m.unknown_tagged_fields[i].data.len()
                <= crate::strings::MAX_COMPACT_LEN,
        forall|i: int|
            0 <= i < m.api_keys.len() ==> #[trigger] m.api_keys[i].unknown_tagged_fields.len()
                <= 0xFFFF_FFFF,
        forall|i: int, j: int|
            0 <= i < m.api_keys.len() && 0 <= j < m.api_keys[i].unknown_tagged_fields.len()
                ==> #[trigger] m.api_keys[i].unknown_tagged_fields[j].data.len()
                <= crate::strings::MAX_COMPACT_LEN,
    ensures
        ({
            let s = prefix + enc_api_versions_response_v3(m) + suffix;
            let p = prefix.len() as int;
            let count = enc_uvarint((m.api_keys.len() + 1) as nat);
            let body = enc_api_versions_v3_seq(m.api_keys);
            let tags = enc_tagged_section(m.unknown_tagged_fields);
            let p3 = p + 2 + count.len() as int + body.len() as int;
            dec_tagged_section(s, p3 + 4) == Ok::<(Seq<TaggedFieldModel>, int), DecodeError>(
                (m.unknown_tagged_fields, p3 + 4 + tags.len() as int),
            )
        }),
{
    let s = prefix + enc_api_versions_response_v3(m) + suffix;
    let p = prefix.len() as int;
    let a = enc_i16(m.error_code);
    let count = enc_uvarint((m.api_keys.len() + 1) as nat);
    let body = enc_api_versions_v3_seq(m.api_keys);
    let thr = enc_i32(m.throttle_time_ms);
    let tags = enc_tagged_section(m.unknown_tagged_fields);
    let p2 = p + 2 + count.len() as int;
    let p3 = p2 + body.len() as int;
    assert(s =~= ((((prefix + a) + count) + body) + thr) + tags + suffix);
    crate::tagged_fields::lemma_tagged_section_round_trip(
        (((prefix + a) + count) + body) + thr,
        m.unknown_tagged_fields,
        suffix,
    );
}

/// The round-trip law for the version 3 ApiVersions response: a response
/// whose tagged-field lists all strictly increase, once written, reads
/// back as exactly the same value.
#[verifier::rlimit(100)]
#[verifier::spinoff_prover]
pub proof fn lemma_api_versions_response_v3_round_trip(
    prefix: Seq<u8>,
    m: ApiVersionsResponseV3Model,
    suffix: Seq<u8>,
)
    requires
        response_v3_tags_increasing(m),
        m.api_keys.len() + 1 <= 0xFFFF_FFFF,
        m.unknown_tagged_fields.len() <= 0xFFFF_FFFF,
        forall|i: int|
            0 <= i < m.unknown_tagged_fields.len()
                ==> #[trigger] m.unknown_tagged_fields[i].data.len()
                <= crate::strings::MAX_COMPACT_LEN,
        forall|i: int|
            0 <= i < m.api_keys.len() ==> #[trigger] m.api_keys[i].unknown_tagged_fields.len()
                <= 0xFFFF_FFFF,
        forall|i: int, j: int|
            0 <= i < m.api_keys.len() && 0 <= j < m.api_keys[i].unknown_tagged_fields.len()
                ==> #[trigger] m.api_keys[i].unknown_tagged_fields[j].data.len()
                <= crate::strings::MAX_COMPACT_LEN,
    ensures
        dec_api_versions_response_v3(
            prefix + enc_api_versions_response_v3(m) + suffix,
            prefix.len() as int,
        ) == Ok::<(ApiVersionsResponseV3Model, int), DecodeError>(
            (m, prefix.len() as int + enc_api_versions_response_v3(m).len() as int),
        ),
{
    let s = prefix + enc_api_versions_response_v3(m) + suffix;
    let p = prefix.len() as int;
    let a = enc_i16(m.error_code);
    let count = enc_uvarint((m.api_keys.len() + 1) as nat);
    let body = enc_api_versions_v3_seq(m.api_keys);
    let thr = enc_i32(m.throttle_time_ms);
    let tags = enc_tagged_section(m.unknown_tagged_fields);
    let p2 = p + 2 + count.len() as int;
    let p3 = p2 + body.len() as int;
    let n: u32 = (m.api_keys.len() + 1) as u32;
    lemma_v3_step_error_code(prefix, m, suffix);
    lemma_v3_step_count(prefix, m, suffix);
    lemma_v3_step_entries(prefix, m, suffix);
    lemma_v3_step_throttle(prefix, m, suffix);
    lemma_v3_step_tags(prefix, m, suffix);
    assert((n - 1) as nat == m.api_keys.len());
    assert(enc_api_versions_response_v3(m).len() == 2 + count.len() + body.len() + 4 + tags.len());
}

} // verus!
