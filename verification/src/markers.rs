//! Capability markers for type-level dispatch: a type is a header, a
//! request, a response or a nested data record. They carry no behaviour.

use vstd::prelude::*;
use crate::headers::{
    RequestHeaderV0,
    RequestHeaderV1,
    RequestHeaderV2,
    ResponseHeaderV0,
    ResponseHeaderV1,
};
use crate::api_versions::{ApiVersion, ApiVersionV3, ApiVersionsRequest, ApiVersionsResponse, ApiVersionsResponseV3};
use crate::create_topics::{
    CreatableReplicaAssignment,
    CreatableTopic,
    CreateTopicsRequest,
    CreateableTopicConfig,
};

verus! {

/// A message that can be put on and taken off the wire.
pub trait ApiMessage {

}

/// A request or response header.
pub trait Header: ApiMessage {

}

/// A request body.
pub trait Request: ApiMessage {

}

/// A response body.
pub trait Response: ApiMessage {

}

/// A nested data record inside a request or response.
pub trait Data: ApiMessage {

}

impl ApiMessage for RequestHeaderV0 {

}

impl Header for RequestHeaderV0 {

}

impl ApiMessage for RequestHeaderV1 {

}

impl Header for RequestHeaderV1 {

}

impl ApiMessage for RequestHeaderV2 {

}

impl Header for RequestHeaderV2 {

}

impl ApiMessage for ResponseHeaderV0 {

}

impl Header for ResponseHeaderV0 {

}

impl ApiMessage for ResponseHeaderV1 {

}

impl Header for ResponseHeaderV1 {

}

impl ApiMessage for ApiVersionsRequest {

}

impl Request for ApiVersionsRequest {

}

impl ApiMessage for ApiVersionsResponse {

}

impl Response for ApiVersionsResponse {

}

impl ApiMessage for ApiVersion {

}

impl Data for ApiVersion {

}

impl ApiMessage for ApiVersionsResponseV3 {

}

impl Response for ApiVersionsResponseV3 {

}

impl ApiMessage for ApiVersionV3 {

}

impl Data for ApiVersionV3 {

}

impl ApiMessage for CreateTopicsRequest {

}

impl Request for CreateTopicsRequest {

}

impl ApiMessage for CreatableTopic {

}

impl Data for CreatableTopic {

}

impl ApiMessage for CreatableReplicaAssignment {

}

impl Data for CreatableReplicaAssignment {

}

impl ApiMessage for CreateableTopicConfig {

}

impl Data for CreateableTopicConfig {

}

} // verus!
