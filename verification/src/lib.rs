//! Core of a Kafka wire-protocol codec: primitives, varints, strings and
//! bytes in their classic and compact encodings, tagged-fields sections,
//! request/response headers, message framing, and the API registry.

pub mod api_versions;
pub mod create_topics;
pub mod errors;
pub mod framing;
pub mod headers;
pub mod markers;
pub mod primitives;
pub mod registry;
pub mod strings;
pub mod tagged_fields;
pub mod varint;
