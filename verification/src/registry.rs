//! The API message registry: for each API key, its name is fixed by the
//! protocol, along with the supported request versions, the version at
//! which the encoding turns flexible, and the header versions to use for
//! requests and responses at a given version.

use vstd::prelude::*;

verus! {

/// API key of the Produce family.
pub const API_KEY_PRODUCE: i16 = 0;

/// API key of the Fetch family.
pub const API_KEY_FETCH: i16 = 1;

/// API key of the Metadata family.
pub const API_KEY_METADATA: i16 = 3;

/// API key of the ControlledShutdown family.
pub const API_KEY_CONTROLLED_SHUTDOWN: i16 = 7;

/// API key of the ApiVersions family.
pub const API_KEY_API_VERSIONS: i16 = 18;

/// API key of the CreateTopics family.
pub const API_KEY_CREATE_TOPICS: i16 = 19;

/// One registry entry: an API family and its version data.
#[derive(Debug, Clone, Copy, PartialEq, Eq, Structural)]
pub struct ApiMessageType {
    pub api_key: i16,
    /// The lowest request version the family supports.
    pub lowest_supported_version: i16,
    /// The highest request version the family supports.
    pub highest_supported_version: i16,
    /// The first version at which compact encoding and tagged fields apply.
    pub flexible_version: i16,
}

/// The request-header version an API uses at request version `v`: 2 for
/// flexible versions, else 1 — except ControlledShutdown v0, which
/// historically used the bare v0 header.
pub open spec fn spec_request_header_version(api_key: i16, flexible_version: i16, v: i16) -> i16 {
    if api_key == API_KEY_CONTROLLED_SHUTDOWN && v == 0 {
        0
    } else if v >= flexible_version {
        2
    } else {
        1
    }
}

/// The response-header version an API uses at request version `v`: 1 for
/// flexible versions, else 0 — except ApiVersions, whose responses keep
/// header v0 at every version so a client can parse the header before it
/// knows whether the broker speaks a flexible version.
pub open spec fn spec_response_header_version(api_key: i16, flexible_version: i16, v: i16) -> i16 {
    if api_key == API_KEY_API_VERSIONS {
        0
    } else if v >= flexible_version {
        1
    } else {
        0
    }
}

impl ApiMessageType {
    /// The Produce entry.
    pub fn produce() -> (r: ApiMessageType)
        ensures
            r == (ApiMessageType {
                api_key: API_KEY_PRODUCE,
                lowest_supported_version: 0,
                highest_supported_version: 9,
                flexible_version: 9,
            }),
    {
        ApiMessageType {
            api_key: API_KEY_PRODUCE,
            lowest_supported_version: 0,
            highest_supported_version: 9,
            flexible_version: 9,
        }
    }

    /// The Fetch entry.
    pub fn fetch() -> (r: ApiMessageType)
        ensures
            r == (ApiMessageType {
                api_key: API_KEY_FETCH,
                lowest_supported_version: 0,
                highest_supported_version: 13,
                flexible_version: 12,
            }),
    {
        ApiMessageType {
            api_key: API_KEY_FETCH,
            lowest_supported_version: 0,
            highest_supported_version: 13,
            flexible_version: 12,
        }
    }

    /// The Metadata entry.
    pub fn metadata() -> (r: ApiMessageType)
        ensures
            r == (ApiMessageType {
                api_key: API_KEY_METADATA,
                lowest_supported_version: 0,
                highest_supported_version: 12,
                flexible_version: 9,
            }),
    {
        ApiMessageType {
            api_key: API_KEY_METADATA,
            lowest_supported_version: 0,
            highest_supported_version: 12,
            flexible_version: 9,
        }
    }

    /// The ControlledShutdown entry.
    pub fn controlled_shutdown() -> (r: ApiMessageType)
        ensures
            r == (ApiMessageType {
                api_key: API_KEY_CONTROLLED_SHUTDOWN,
                lowest_supported_version: 0,
                highest_supported_version: 3,
                flexible_version: 3,
            }),
    {
        ApiMessageType {
            api_key: API_KEY_CONTROLLED_SHUTDOWN,
            lowest_supported_version: 0,
            highest_supported_version: 3,
            flexible_version: 3,
        }
    }

    /// The ApiVersions entry.
    pub fn api_versions() -> (r: ApiMessageType)
        ensures
            r == (ApiMessageType {
                api_key: API_KEY_API_VERSIONS,
                lowest_supported_version: 0,
                highest_supported_version: 3,
                flexible_version: 3,
            }),
    {
        ApiMessageType {
            api_key: API_KEY_API_VERSIONS,
            lowest_supported_version: 0,
            highest_supported_version: 3,
            flexible_version: 3,
        }
    }

    /// The CreateTopics entry.
    pub fn create_topics() -> (r: ApiMessageType)
        ensures
            r == (ApiMessageType {
                api_key: API_KEY_CREATE_TOPICS,
                lowest_supported_version: 0,
                highest_supported_version: 7,
                flexible_version: 5,
            }),
    {
        ApiMessageType {
            api_key: API_KEY_CREATE_TOPICS,
            lowest_supported_version: 0,
            highest_supported_version: 7,
            flexible_version: 5,
        }
    }

    /// Whether request version `v` lies in the supported range.
    pub fn supports_version(&self, v: i16) -> (r: bool)
        ensures
            r == (self.lowest_supported_version <= v <= self.highest_supported_version),
    {
        self.lowest_supported_version <= v && v <= self.highest_supported_version
    }

    /// Whether request version `v` uses the flexible encoding.
    pub fn is_flexible(&self, v: i16) -> (r: bool)
        ensures
            r == (v >= self.flexible_version),
    {
        v >= self.flexible_version
    }

    /// The request-header version to use at request version `v`.
    pub fn request_header_version(&self, v: i16) -> (r: i16)
        ensures
            r == spec_request_header_version(self.api_key, self.flexible_version, v),
    {
        if self.api_key == API_KEY_CONTROLLED_SHUTDOWN && v == 0 {
            0
        } else if v >= self.flexible_version {
            2
        } else {
            1
        }
    }

    /// The response-header version to use at request version `v`.
    pub fn response_header_version(&self, v: i16) -> (r: i16)
        ensures
            r == spec_response_header_version(self.api_key, self.flexible_version, v),
    {
        if self.api_key == API_KEY_API_VERSIONS {
            0
        } else if v >= self.flexible_version {
            1
        } else {
            0
        }
    }
}

/// Looks an API key up in the registry.
pub fn lookup(api_key: i16) -> (r: Option<ApiMessageType>)
    ensures
        match r {
            Option::Some(t) => t.api_key == api_key && (api_key == API_KEY_PRODUCE || api_key
                == API_KEY_FETCH || api_key == API_KEY_METADATA || api_key
                == API_KEY_CONTROLLED_SHUTDOWN || api_key == API_KEY_API_VERSIONS || api_key
                == API_KEY_CREATE_TOPICS),
            Option::None => api_key != API_KEY_PRODUCE && api_key != API_KEY_FETCH && api_key
                != API_KEY_METADATA && api_key != API_KEY_CONTROLLED_SHUTDOWN && api_key
                != API_KEY_API_VERSIONS && api_key != API_KEY_CREATE_TOPICS,
        },
{
    if api_key == API_KEY_PRODUCE {
        Option::Some(ApiMessageType::produce())
    } else if api_key == API_KEY_FETCH {
        Option::Some(ApiMessageType::fetch())
    } else if api_key == API_KEY_METADATA {
        Option::Some(ApiMessageType::metadata())
    } else if api_key == API_KEY_CONTROLLED_SHUTDOWN {
        Option::Some(ApiMessageType::controlled_shutdown())
    } else if api_key == API_KEY_API_VERSIONS {
        Option::Some(ApiMessageType::api_versions())
    } else if api_key == API_KEY_CREATE_TOPICS {
        Option::Some(ApiMessageType::create_topics())
    } else {
        Option::None
    }
}

} // verus!
