//! Request and response headers. Request header v0 carries the api key,
//! api version and correlation id; v1 adds a nullable classic clientId;
//! v2 is the flexible form: compact clientId and a trailing tagged-fields
//! section. Response header v0 is the correlation id alone; v1 adds the
//! tagged-fields section.

use vstd::prelude::*;
use vstd::utf8::encode_utf8;
use crate::errors::{DecodeError, EncodeError};
use crate::primitives::{
    enc_i16,
    enc_i32,
    dec_i16,
    dec_i32,
    write_i16,
    write_i32,
    read_i16,
    read_i32,
};
use crate::strings::{
    enc_classic_string,
    enc_compact_string,
    dec_classic_string,
    dec_compact_string,
    write_classic_string,
    write_compact_string,
    read_classic_string,
    read_compact_string,
    opt_string_view,
};
use crate::tagged_fields::{
    RawTaggedField,
    TaggedFieldModel,
    enc_tagged_section,
    dec_tagged_section,
    tags_strictly_increasing,
    first_tag_violation,
    k_write_unknown_tagged_fields,
    k_read_unknown_tagged_fields,
};
use vstd::pervasive::unreached;

verus! {

/// Request header v0: api key, api version, correlation id.
#[derive(Debug, Clone, Copy, PartialEq, Eq, Structural)]
pub struct RequestHeaderV0 {
    pub api_key: i16,
    pub api_version: i16,
    pub correlation_id: i32,
}

/// Request header v1: v0 plus a nullable classic clientId.
#[derive(Debug, Clone)]
pub struct RequestHeaderV1 {
    pub api_key: i16,
    pub api_version: i16,
    pub correlation_id: i32,
    pub client_id: Option<String>,
}

/// Request header v2: v1 in compact form plus trailing tagged fields.
#[derive(Debug, Clone)]
pub struct RequestHeaderV2 {
    pub api_key: i16,
    pub api_version: i16,
    pub correlation_id: i32,
    pub client_id: Option<String>,
    pub unknown_tagged_fields: Vec<RawTaggedField>,
}

/// Response header v0: the correlation id alone.
#[derive(Debug, Clone, Copy, PartialEq, Eq, Structural)]
pub struct ResponseHeaderV0 {
    pub correlation_id: i32,
}

/// Response header v1: v0 plus trailing tagged fields.
#[derive(Debug, Clone)]
pub struct ResponseHeaderV1 {
    pub correlation_id: i32,
    pub unknown_tagged_fields: Vec<RawTaggedField>,
}

/// The mathematical shape of a request header v1.
pub ghost struct RequestHeaderV1Model {
    pub api_key: i16,
    pub api_version: i16,
    pub correlation_id: i32,
    pub client_id: Option<Seq<char>>,
}

/// The mathematical shape of a request header v2.
pub ghost struct RequestHeaderV2Model {
    pub api_key: i16,
    pub api_version: i16,
    pub correlation_id: i32,
    pub client_id: Option<Seq<char>>,
    pub unknown_tagged_fields: Seq<TaggedFieldModel>,
}

/// The mathematical shape of a response header v1.
pub ghost struct ResponseHeaderV1Model {
    pub correlation_id: i32,
    pub unknown_tagged_fields: Seq<TaggedFieldModel>,
}

impl View for RequestHeaderV1 {
    type V = RequestHeaderV1Model;

    open spec fn view(&self) -> RequestHeaderV1Model {
        RequestHeaderV1Model {
            api_key: self.api_key,
            api_version: self.api_version,
            correlation_id: self.correlation_id,
            client_id: opt_string_view(self.client_id),
        }
    }
}

impl View for RequestHeaderV2 {
    type V = RequestHeaderV2Model;

    open spec fn view(&self) -> RequestHeaderV2Model {
        RequestHeaderV2Model {
            api_key: self.api_key,
            api_version: self.api_version,
            correlation_id: self.correlation_id,
            client_id: opt_string_view(self.client_id),
            unknown_tagged_fields: self.unknown_tagged_fields.deep_view(),
        }
    }
}

impl View for ResponseHeaderV1 {
    type V = ResponseHeaderV1Model;

    open spec fn view(&self) -> ResponseHeaderV1Model {
        ResponseHeaderV1Model {
            correlation_id: self.correlation_id,
            unknown_tagged_fields: self.unknown_tagged_fields.deep_view(),
        }
    }
}

/// The wire bytes of a request header v0.
pub open spec fn enc_request_header_v0(h: RequestHeaderV0) -> Seq<u8> {
    enc_i16(h.api_key) + enc_i16(h.api_version) + enc_i32(h.correlation_id)
}

/// The wire bytes of a request header v1.
pub open spec fn enc_request_header_v1(m: RequestHeaderV1Model) -> Seq<u8> {
    enc_i16(m.api_key) + enc_i16(m.api_version) + enc_i32(m.correlation_id) + enc_classic_string(
        m.client_id,
    )
}

/// The wire bytes of a request header v2.
pub open spec fn enc_request_header_v2(m: RequestHeaderV2Model) -> Seq<u8> {
    enc_i16(m.api_key) + enc_i16(m.api_version) + enc_i32(m.correlation_id) + enc_compact_string(
        m.client_id,
    ) + enc_tagged_section(m.unknown_tagged_fields)
}

/// The wire bytes of a response header v0.
pub open spec fn enc_response_header_v0(h: ResponseHeaderV0) -> Seq<u8> {
    enc_i32(h.correlation_id)
}

/// The wire bytes of a response header v1.
pub open spec fn enc_response_header_v1(m: ResponseHeaderV1Model) -> Seq<u8> {
    enc_i32(m.correlation_id) + enc_tagged_section(m.unknown_tagged_fields)
}

/// Spec-level decoder for a request header v0 at `pos`.
pub open spec fn dec_request_header_v0(s: Seq<u8>, pos: int) -> Result<
    (RequestHeaderV0, int),
    DecodeError,
> {
    match dec_i16(s, pos) {
        Ok((api_key, p1)) => match dec_i16(s, p1) {
            Ok((api_version, p2)) => match dec_i32(s, p2) {
                Ok((correlation_id, p3)) => Ok(
                    (RequestHeaderV0 { api_key, api_version, correlation_id }, p3),
                ),
                Err(e) => Err(e),
            },
            Err(e) => Err(e),
        },
        Err(e) => Err(e),
    }
}

/// Spec-level decoder for a request header v1 at `pos`.
pub open spec fn dec_request_header_v1(s: Seq<u8>, pos: int) -> Result<
    (RequestHeaderV1Model, int),
    DecodeError,
> {
    match dec_request_header_v0(s, pos) {
        Ok((h, p3)) => match dec_classic_string(s, p3, true) {
            Ok((client_id, p4)) => Ok(
                (
                    RequestHeaderV1Model {
                        api_key: h.api_key,
                        api_version: h.api_version,
                        correlation_id: h.correlation_id,
                        client_id,
                    },
                    p4,
                ),
            ),
            Err(e) => Err(e),
        },
        Err(e) => Err(e),
    }
}

/// Spec-level decoder for a request header v2 at `pos`.
pub open spec fn dec_request_header_v2(s: Seq<u8>, pos: int) -> Result<
    (RequestHeaderV2Model, int),
    DecodeError,
> {
    match dec_request_header_v0(s, pos) {
        Ok((h, p3)) => match dec_compact_string(s, p3, true) {
            Ok((client_id, p4)) => match dec_tagged_section(s, p4) {
                Ok((fields, p5)) => Ok(
                    (
                        RequestHeaderV2Model {
                            api_key: h.api_key,
                            api_version: h.api_version,
                            correlation_id: h.correlation_id,
                            client_id,
                            unknown_tagged_fields: fields,
                        },
                        p5,
                    ),
                ),
                Err(e) => Err(e),
            },
            Err(e) => Err(e),
        },
        Err(e) => Err(e),
    }
}

/// Spec-level decoder for a response header v0 at `pos`.
pub open spec fn dec_response_header_v0(s: Seq<u8>, pos: int) -> Result<
    (ResponseHeaderV0, int),
    DecodeError,
> {
    match dec_i32(s, pos) {
        Ok((correlation_id, p1)) => Ok((ResponseHeaderV0 { correlation_id }, p1)),
        Err(e) => Err(e),
    }
}

/// Spec-level decoder for a response header v1 at `pos`.
pub open spec fn dec_response_header_v1(s: Seq<u8>, pos: int) -> Result<
    (ResponseHeaderV1Model, int),
    DecodeError,
> {
    match dec_i32(s, pos) {
        Ok((correlation_id, p1)) => match dec_tagged_section(s, p1) {
            Ok((fields, p2)) => Ok(
                (ResponseHeaderV1Model { correlation_id, unknown_tagged_fields: fields }, p2),
            ),
            Err(e) => Err(e),
        },
        Err(e) => Err(e),
    }
}

impl RequestHeaderV0 {
    /// A header with the given fields.
    pub fn new(api_key: i16, api_version: i16, correlation_id: i32) -> (r: RequestHeaderV0)
        ensures
            r == (RequestHeaderV0 { api_key, api_version, correlation_id }),
    {
        RequestHeaderV0 { api_key, api_version, correlation_id }
    }

    /// Appends the wire bytes of this header.
    pub fn write(&self, out: &mut Vec<u8>)
        ensures
            final(out)@ == old(out)@ + enc_request_header_v0(*self),
    {
        write_i16(out, self.api_key);
        write_i16(out, self.api_version);
        write_i32(out, self.correlation_id);
        assert(out@ =~= old(out)@ + enc_request_header_v0(*self));
    }

    /// Reads a header at `pos`.
    pub fn read(buf: &Vec<u8>, pos: usize) -> (r: Result<(RequestHeaderV0, usize), DecodeError>)
        ensures
            match r {
                Ok((h, n)) => dec_request_header_v0(buf@, pos as int) == Ok::<
                    (RequestHeaderV0, int),
                    DecodeError,
                >((h, n as int)),
                Err(e) => dec_request_header_v0(buf@, pos as int) == Err::<
                    (RequestHeaderV0, int),
                    DecodeError,
                >(e),
            },
    {
        match read_i16(buf, pos) {
            Ok((api_key, p1)) => match read_i16(buf, p1) {
                Ok((api_version, p2)) => match read_i32(buf, p2) {
                    Ok((correlation_id, p3)) => Ok(
                        (RequestHeaderV0 { api_key, api_version, correlation_id }, p3),
                    ),
                    Err(e) => Err(e),
                },
                Err(e) => Err(e),
            },
            Err(e) => Err(e),
        }
    }
}

impl RequestHeaderV1 {
    /// A header with the given fields.
    pub fn new(api_key: i16, api_version: i16, correlation_id: i32, client_id: Option<String>) -> (r:
        RequestHeaderV1)
        ensures
            r.api_key == api_key,
            r.api_version == api_version,
            r.correlation_id == correlation_id,
            r@.client_id == opt_string_view(client_id),
    {
        RequestHeaderV1 { api_key, api_version, correlation_id, client_id }
    }

    /// Appends the wire bytes of this header: the v0 fields, then the
    /// clientId as a nullable classic string.
    pub fn write(&self, out: &mut Vec<u8>)
        requires
            self.client_id matches Option::Some(s) ==> encode_utf8(s@).len() <= 0x7FFF,
        ensures
            final(out)@ == old(out)@ + enc_request_header_v1(self@),
    {
        write_i16(out, self.api_key);
        write_i16(out, self.api_version);
        write_i32(out, self.correlation_id);
        let cid: Option<&str> = match &self.client_id {
            Option::Some(s) => Option::Some(s.as_str()),
            Option::None => Option::None,
        };
        let r = write_classic_string(out, cid, true);
        match r {
            Ok(()) => {},
            Err(_) => unreached(),
        }
        assert(out@ =~= old(out)@ + enc_request_header_v1(self@));
    }

    /// Reads a header at `pos`.
    pub fn read(buf: &Vec<u8>, pos: usize) -> (r: Result<(RequestHeaderV1, usize), DecodeError>)
        ensures
            match r {
                Ok((h, n)) => dec_request_header_v1(buf@, pos as int) == Ok::<
                    (RequestHeaderV1Model, int),
                    DecodeError,
                >((h@, n as int)),
                Err(e) => dec_request_header_v1(buf@, pos as int) == Err::<
                    (RequestHeaderV1Model, int),
                    DecodeError,
                >(e),
            },
    {
        match RequestHeaderV0::read(buf, pos) {
            Ok((h, p3)) => match read_classic_string(buf, p3, true) {
                Ok((client_id, p4)) => Ok(
                    (
                        RequestHeaderV1 {
                            api_key: h.api_key,
                            api_version: h.api_version,
                            correlation_id: h.correlation_id,
                            client_id,
                        },
                        p4,
                    ),
                ),
                Err(e) => Err(e),
            },
            Err(e) => Err(e),
        }
    }
}

impl RequestHeaderV2 {
    /// A header with the given fields and no unknown tagged fields.
    pub fn new(api_key: i16, api_version: i16, correlation_id: i32, client_id: Option<String>) -> (r:
        RequestHeaderV2)
        ensures
            r.api_key == api_key,
            r.api_version == api_version,
            r.correlation_id == correlation_id,
            r@.client_id == opt_string_view(client_id),
            r@.unknown_tagged_fields.len() == 0,
    {
        let r = RequestHeaderV2 {
            api_key,
            api_version,
            correlation_id,
            client_id,
            unknown_tagged_fields: Vec::new(),
        };
        proof {
            assert(r.unknown_tagged_fields.deep_view() =~= Seq::<TaggedFieldModel>::empty());
        }
        r
    }

    /// Appends the wire bytes of this header: the v0 fields, the clientId
    /// as a nullable compact string, then the tagged-fields section. When
    /// the tagged fields are not strictly increasing by tag it reports the
    /// first offending pair; the fixed fields are already in the buffer.
    pub fn write(&self, out: &mut Vec<u8>) -> (r: Result<(), EncodeError>)
        requires
            self.client_id matches Option::Some(s) ==> encode_utf8(s@).len() + 1 <= 0xFFFF_FFFF,
            self.unknown_tagged_fields@.len() <= 0xFFFF_FFFF,
            forall|i: int|
                0 <= i < self.unknown_tagged_fields@.len()
                    ==> #[trigger] self.unknown_tagged_fields@[i].data@.len() + 1 <= 0xFFFF_FFFF,
        ensures
            match r {
                Ok(()) => tags_strictly_increasing(self@.unknown_tagged_fields) && final(out)@
                    == old(out)@ + enc_request_header_v2(self@),
                Err(e) => {
                    let v = first_tag_violation(self@.unknown_tagged_fields);
                    v != -1 && e == (EncodeError::InvalidTagOrder {
                        earlier: self@.unknown_tagged_fields[v].tag,
                        later: self@.unknown_tagged_fields[v + 1].tag,
                    }) && final(out)@ == old(out)@ + enc_i16(self.api_key) + enc_i16(
                        self.api_version,
                    ) + enc_i32(self.correlation_id) + enc_compact_string(self@.client_id)
                },
            },
    {
        write_i16(out, self.api_key);
        write_i16(out, self.api_version);
        write_i32(out, self.correlation_id);
        let cid: Option<&str> = match &self.client_id {
            Option::Some(s) => Option::Some(s.as_str()),
            Option::None => Option::None,
        };
        let rs = write_compact_string(out, cid, true);
        match rs {
            Ok(()) => {},
            Err(_) => unreached(),
        }
        let rt = k_write_unknown_tagged_fields(out, self.unknown_tagged_fields.as_slice());
        match rt {
            Ok(()) => {
                assert(out@ =~= old(out)@ + enc_request_header_v2(self@));
                Ok(())
            },
            Err(e) => Err(e),
        }
    }

    /// Reads a header at `pos`.
    pub fn read(buf: &Vec<u8>, pos: usize) -> (r: Result<(RequestHeaderV2, usize), DecodeError>)
        ensures
            match r {
                Ok((h, n)) => dec_request_header_v2(buf@, pos as int) == Ok::<
                    (RequestHeaderV2Model, int),
                    DecodeError,
                >((h@, n as int)),
                Err(e) => dec_request_header_v2(buf@, pos as int) == Err::<
                    (RequestHeaderV2Model, int),
                    DecodeError,
                >(e),
            },
    {
        match RequestHeaderV0::read(buf, pos) {
            Ok((h, p3)) => match read_compact_string(buf, p3, true) {
                Ok((client_id, p4)) => match k_read_unknown_tagged_fields(buf, p4) {
                    Ok((fields, p5)) => Ok(
                        (
                            RequestHeaderV2 {
                                api_key: h.api_key,
                                api_version: h.api_version,
                                correlation_id: h.correlation_id,
                                client_id,
                                unknown_tagged_fields: fields,
                            },
                            p5,
                        ),
                    ),
                    Err(e) => Err(e),
                },
                Err(e) => Err(e),
            },
            Err(e) => Err(e),
        }
    }
}

impl ResponseHeaderV0 {
    /// A header with the given correlation id.
    pub fn new(correlation_id: i32) -> (r: ResponseHeaderV0)
        ensures
            r == (ResponseHeaderV0 { correlation_id }),
    {
        ResponseHeaderV0 { correlation_id }
    }

    /// Appends the wire bytes of this header.
    pub fn write(&self, out: &mut Vec<u8>)
        ensures
            final(out)@ == old(out)@ + enc_response_header_v0(*self),
    {
        write_i32(out, self.correlation_id);
    }

    /// Reads a header at `pos`.
    pub fn read(buf: &Vec<u8>, pos: usize) -> (r: Result<(ResponseHeaderV0, usize), DecodeError>)
        ensures
            match r {
                Ok((h, n)) => dec_response_header_v0(buf@, pos as int) == Ok::<
                    (ResponseHeaderV0, int),
                    DecodeError,
                >((h, n as int)),
                Err(e) => dec_response_header_v0(buf@, pos as int) == Err::<
                    (ResponseHeaderV0, int),
                    DecodeError,
                >(e),
            },
    {
        match read_i32(buf, pos) {
            Ok((correlation_id, p1)) => Ok((ResponseHeaderV0 { correlation_id }, p1)),
            Err(e) => Err(e),
        }
    }
}

impl ResponseHeaderV1 {
    /// A header with the given correlation id and no unknown tagged fields.
    pub fn new(correlation_id: i32) -> (r: ResponseHeaderV1)
        ensures
            r.correlation_id == correlation_id,
            r@.unknown_tagged_fields.len() == 0,
    {
        let r = ResponseHeaderV1 { correlation_id, unknown_tagged_fields: Vec::new() };
        proof {
            assert(r.unknown_tagged_fields.deep_view() =~= Seq::<TaggedFieldModel>::empty());
        }
        r
    }

    /// Appends the wire bytes of this header: the correlation id, then the
    /// tagged-fields section.
    pub fn write(&self, out: &mut Vec<u8>) -> (r: Result<(), EncodeError>)
        requires
            self.unknown_tagged_fields@.len() <= 0xFFFF_FFFF,
            forall|i: int|
                0 <= i < self.unknown_tagged_fields@.len()
                    ==> #[trigger] self.unknown_tagged_fields@[i].data@.len() + 1 <= 0xFFFF_FFFF,
        ensures
            match r {
                Ok(()) => tags_strictly_increasing(self@.unknown_tagged_fields) && final(out)@
                    == old(out)@ + enc_response_header_v1(self@),
                Err(e) => {
                    let v = first_tag_violation(self@.unknown_tagged_fields);
                    v != -1 && e == (EncodeError::InvalidTagOrder {
                        earlier: self@.unknown_tagged_fields[v].tag,
                        later: self@.unknown_tagged_fields[v + 1].tag,
                    }) && final(out)@ == old(out)@ + enc_i32(self.correlation_id)
                },
            },
    {
        write_i32(out, self.correlation_id);
        let rt = k_write_unknown_tagged_fields(out, self.unknown_tagged_fields.as_slice());
        match rt {
            Ok(()) => {
                assert(out@ =~= old(out)@ + enc_response_header_v1(self@));
                Ok(())
            },
            Err(e) => Err(e),
        }
    }

    /// Reads a header at `pos`.
    pub fn read(buf: &Vec<u8>, pos: usize) -> (r: Result<(ResponseHeaderV1, usize), DecodeError>)
        ensures
            match r {
                Ok((h, n)) => dec_response_header_v1(buf@, pos as int) == Ok::<
                    (ResponseHeaderV1Model, int),
                    DecodeError,
                >((h@, n as int)),
                Err(e) => dec_response_header_v1(buf@, pos as int) == Err::<
                    (ResponseHeaderV1Model, int),
                    DecodeError,
                >(e),
            },
    {
        match read_i32(buf, pos) {
            Ok((correlation_id, p1)) => match k_read_unknown_tagged_fields(buf, p1) {
                Ok((fields, p2)) => Ok(
                    (ResponseHeaderV1 { correlation_id, unknown_tagged_fields: fields }, p2),
                ),
                Err(e) => Err(e),
            },
            Err(e) => Err(e),
        }
    }
}

/// Round trip for request header v0.
pub proof fn lemma_request_header_v0_round_trip(
    prefix: Seq<u8>,
    h: RequestHeaderV0,
    suffix: Seq<u8>,
)
    ensures
        dec_request_header_v0(prefix + enc_request_header_v0(h) + suffix, prefix.len() as int)
            == Ok::<(RequestHeaderV0, int), DecodeError>(
            (h, prefix.len() as int + enc_request_header_v0(h).len() as int),
        ),
{
    let s = prefix + enc_request_header_v0(h) + suffix;
    let a = enc_i16(h.api_key);
    let b = enc_i16(h.api_version);
    let c = enc_i32(h.correlation_id);
    assert(s =~= prefix + a + (b + c + suffix));
    crate::primitives::lemma_i16_round_trip(prefix, h.api_key, b + c + suffix);
    assert(s =~= (prefix + a) + b + (c + suffix));
    crate::primitives::lemma_i16_round_trip(prefix + a, h.api_version, c + suffix);
    assert(s =~= ((prefix + a) + b) + c + suffix);
    crate::primitives::lemma_i32_round_trip((prefix + a) + b, h.correlation_id, suffix);
}

/// Round trip for request header v1.
pub proof fn lemma_request_header_v1_round_trip(
    prefix: Seq<u8>,
    m: RequestHeaderV1Model,
    suffix: Seq<u8>,
)
    requires
        m.client_id matches Option::Some(cs) ==> encode_utf8(cs).len() <= 0x7FFF,
    ensures
        dec_request_header_v1(prefix + enc_request_header_v1(m) + suffix, prefix.len() as int)
            == Ok::<(RequestHeaderV1Model, int), DecodeError>(
            (m, prefix.len() as int + enc_request_header_v1(m).len() as int),
        ),
{
    let s = prefix + enc_request_header_v1(m) + suffix;
    let h = RequestHeaderV0 {
        api_key: m.api_key,
        api_version: m.api_version,
        correlation_id: m.correlation_id,
    };
    let head = enc_request_header_v0(h);
    let cid = enc_classic_string(m.client_id);
    assert(s =~= prefix + head + (cid + suffix));
    lemma_request_header_v0_round_trip(prefix, h, cid + suffix);
    assert(s =~= (prefix + head) + cid + suffix);
    crate::strings::lemma_classic_string_round_trip(prefix + head, m.client_id, suffix, true);
}

/// Round trip for request header v2.
#[verifier::rlimit(80)]
#[verifier::spinoff_prover]
pub proof fn lemma_request_header_v2_round_trip(
    prefix: Seq<u8>,
    m: RequestHeaderV2Model,
    suffix: Seq<u8>,
)
    requires
        m.client_id matches Option::Some(cs) ==> encode_utf8(cs).len()
            <= crate::strings::MAX_COMPACT_LEN,
        tags_strictly_increasing(m.unknown_tagged_fields),
        m.unknown_tagged_fields.len() <= 0xFFFF_FFFF,
        forall|i: int|
            0 <= i < m.unknown_tagged_fields.len()
                ==> #[trigger] m.unknown_tagged_fields[i].data.len()
                <= crate::strings::MAX_COMPACT_LEN,
    ensures
        dec_request_header_v2(prefix + enc_request_header_v2(m) + suffix, prefix.len() as int)
            == Ok::<(RequestHeaderV2Model, int), DecodeError>(
            (m, prefix.len() as int + enc_request_header_v2(m).len() as int),
        ),
{
    let s = prefix + enc_request_header_v2(m) + suffix;
    let h = RequestHeaderV0 {
        api_key: m.api_key,
        api_version: m.api_version,
        correlation_id: m.correlation_id,
    };
    let head = enc_request_header_v0(h);
    let cid = enc_compact_string(m.client_id);
    let tags = enc_tagged_section(m.unknown_tagged_fields);
    let p = prefix.len() as int;
    assert(s =~= prefix + head + (cid + tags + suffix));
    lemma_request_header_v0_round_trip(prefix, h, cid + tags + suffix);
    assert(dec_request_header_v0(s, p) == Ok::<(RequestHeaderV0, int), DecodeError>(
        (h, p + head.len() as int),
    ));
    assert(s =~= (prefix + head) + cid + (tags + suffix));
    crate::strings::lemma_compact_string_round_trip(prefix + head, m.client_id, tags + suffix, true);
    assert(dec_compact_string(s, p + head.len() as int, true) == Ok::<
        (Option<Seq<char>>, int),
        DecodeError,
    >((m.client_id, p + head.len() as int + cid.len() as int)));
    assert(s =~= ((prefix + head) + cid) + tags + suffix);
    crate::tagged_fields::lemma_tagged_section_round_trip(
        (prefix + head) + cid,
        m.unknown_tagged_fields,
        suffix,
    );
    assert(dec_tagged_section(s, p + head.len() as int + cid.len() as int) == Ok::<
        (Seq<TaggedFieldModel>, int),
        DecodeError,
    >(
        (
            m.unknown_tagged_fields,
            p + head.len() as int + cid.len() as int + tags.len() as int,
        ),
    ));
    assert(enc_request_header_v2(m).len() == head.len() + cid.len() + tags.len());
}

/// Round trip for response header v0.
pub proof fn lemma_response_header_v0_round_trip(
    prefix: Seq<u8>,
    h: ResponseHeaderV0,
    suffix: Seq<u8>,
)
    ensures
        dec_response_header_v0(prefix + enc_response_header_v0(h) + suffix, prefix.len() as int)
            == Ok::<(ResponseHeaderV0, int), DecodeError>(
            (h, prefix.len() as int + enc_response_header_v0(h).len() as int),
        ),
{
    crate::primitives::lemma_i32_round_trip(prefix, h.correlation_id, suffix);
}

/// Round trip for response header v1.
#[verifier::rlimit(80)]
#[verifier::spinoff_prover]
pub proof fn lemma_response_header_v1_round_trip(
    prefix: Seq<u8>,
    m: ResponseHeaderV1Model,
    suffix: Seq<u8>,
)
    requires
        tags_strictly_increasing(m.unknown_tagged_fields),
        m.unknown_tagged_fields.len() <= 0xFFFF_FFFF,
        forall|i: int|
            0 <= i < m.unknown_tagged_fields.len()
                ==> #[trigger] m.unknown_tagged_fields[i].data.len()
                <= crate::strings::MAX_COMPACT_LEN,
    ensures
        dec_response_header_v1(prefix + enc_response_header_v1(m) + suffix, prefix.len() as int)
            == Ok::<(ResponseHeaderV1Model, int), DecodeError>(
            (m, prefix.len() as int + enc_response_header_v1(m).len() as int),
        ),
{
    let s = prefix + enc_response_header_v1(m) + suffix;
    let c = enc_i32(m.correlation_id);
    let tags = enc_tagged_section(m.unknown_tagged_fields);
    let p = prefix.len() as int;
    assert(s =~= prefix + c + (tags + suffix));
    crate::primitives::lemma_i32_round_trip(prefix, m.correlation_id, tags + suffix);
    assert(s =~= (prefix + c) + tags + suffix);
    crate::tagged_fields::lemma_tagged_section_round_trip(
        prefix + c,
        m.unknown_tagged_fields,
        suffix,
    );
    assert(dec_tagged_section(s, p + 4) == Ok::<(Seq<TaggedFieldModel>, int), DecodeError>(
        (m.unknown_tagged_fields, p + 4 + tags.len() as int),
    ));
    assert(enc_response_header_v1(m).len() == 4 + tags.len());
}

/// Idempotence for request header v2: re-encoding the decoded copy of an
/// encoded header yields the identical bytes.
pub proof fn lemma_request_header_v2_reencode(m: RequestHeaderV2Model)
    requires
        m.client_id matches Option::Some(cs) ==> encode_utf8(cs).len()
            <= crate::strings::MAX_COMPACT_LEN,
        tags_strictly_increasing(m.unknown_tagged_fields),
        m.unknown_tagged_fields.len() <= 0xFFFF_FFFF,
        forall|i: int|
            0 <= i < m.unknown_tagged_fields.len()
                ==> #[trigger] m.unknown_tagged_fields[i].data.len()
                <= crate::strings::MAX_COMPACT_LEN,
    ensures
        dec_request_header_v2(enc_request_header_v2(m), 0) matches Ok((got, _))
            && enc_request_header_v2(got) == enc_request_header_v2(m),
{
    lemma_request_header_v2_round_trip(Seq::empty(), m, Seq::empty());
    assert(Seq::<u8>::empty() + enc_request_header_v2(m) + Seq::<u8>::empty()
        =~= enc_request_header_v2(m));
}

} // verus!
