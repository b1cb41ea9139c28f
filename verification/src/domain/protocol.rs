//! The raw framing layer: a fixed eight-byte request header in front of an
//! opaque payload, and a frame around an opaque response payload.
use crate::adapters::incoming::protocol::messages::encoding::{
    encode_api_versions_body, fits_frame, frame, frame_payload, try_frame_payload,
    write_api_versions_body,
};
use crate::adapters::incoming::protocol::messages::response::ApiVersion as AdvertisedApi;
use crate::codec::buffer::{
    buffer_to_vec, cursor_over, get_i16, get_i32, new_buffer, put_i16, written,
};
use crate::codec::integers::{be16, be16_bytes, be32, pattern16, signed16, signed32};
use crate::codec::varint::VarInt;
use crate::domain::error::Error;
use vstd::prelude::*;

verus! {

/// Error code for a request in a version that is not served.
pub const UNSUPPORTED_VERSION: i16 = 35;

/// Highest version of `ApiVersions` that is served.
pub const MAX_SUPPORTED_VERSION: i16 = 4;

/// API key of `ApiVersions`.
pub const API_VERSIONS_KEY: i16 = 18;

/// The range of versions that is served of one API.
#[derive(Debug, Clone, Copy, PartialEq, Eq, Structural)]
pub struct ApiVersion {
    pub api_key: i16,
    pub min_version: i16,
    pub max_version: i16,
}

/// An `ApiVersions` answer: an error code and the advertised APIs.
#[derive(Debug)]
pub struct ApiVersionsResponse {
    pub error_code: i16,
    pub api_versions: Vec<ApiVersion>,
}

/// The fixed part of a request header.
#[derive(Debug, PartialEq)]
pub struct RequestHeader {
    pub api_key: i16,
    pub api_version: i16,
    pub correlation_id: i32,
    pub client_id: Option<String>,
}

/// A request: its header and all its bytes.
pub struct KafkaRequest {
    pub header: RequestHeader,
    pub payload: Vec<u8>,
}

/// A response whose payload has been encoded already.
pub struct KafkaResponse {
    pub correlation_id: i32,
    pub error_code: i16,
    pub payload: Vec<u8>,
}

/// The framing codec.
pub struct ProtocolParser;

/// The encoding of `v` as an unsigned varint.
pub open spec fn varint(v: nat) -> Seq<u8> {
    crate::codec::varint::encode_unsigned_varint(v)
}

/// The advertised API that an entry stands for on the wire.
pub open spec fn advertised(v: ApiVersion) -> AdvertisedApi {
    AdvertisedApi { api_key: v.api_key, min_version: v.min_version, max_version: v.max_version }
}

/// The advertised APIs that the entries stand for, in order.
pub open spec fn all_advertised(versions: Seq<ApiVersion>) -> Seq<AdvertisedApi> {
    versions.map_values(|v: ApiVersion| advertised(v))
}

/// The min and max version of an entry, big-endian.
pub open spec fn encode_version_range(v: ApiVersion) -> Seq<u8> {
    be16_bytes(pattern16(v.min_version as int)) + be16_bytes(pattern16(v.max_version as int))
}

/// The encoding of `value` as an unsigned varint.
pub fn encode_unsigned_varint(value: u32) -> (bytes: Vec<u8>)
    ensures
        bytes@ == varint(value as nat),
{
    let mut bytes = new_buffer();
    VarInt::serialize(value as u64, &mut bytes);
    assert(written(bytes) =~= varint(value as nat));
    buffer_to_vec(&bytes)
}

impl ApiVersion {
    /// The version range of the entry on the wire.
    pub fn encode(&self) -> (bytes: Vec<u8>)
        ensures
            bytes@ == encode_version_range(*self),
    {
        let mut buffer = new_buffer();
        put_i16(&mut buffer, self.min_version);
        put_i16(&mut buffer, self.max_version);
        assert(written(buffer) =~= encode_version_range(*self));
        buffer_to_vec(&buffer)
    }
}

impl ApiVersionsResponse {
    /// The answer that carries `error_code` and advertises `ApiVersions`
    /// in versions 0 to 4.
    pub fn new(error_code: i16) -> (r: Self)
        ensures
            r.error_code == error_code,
            r.api_versions@ == seq![ApiVersion { api_key: 18, min_version: 0, max_version: 4 }],
    {
        let mut api_versions: Vec<ApiVersion> = Vec::new();
        api_versions.push(
            ApiVersion {
                api_key: API_VERSIONS_KEY,
                min_version: 0,
                max_version: MAX_SUPPORTED_VERSION,
            },
        );
        assert(api_versions@ =~= seq![ApiVersion { api_key: 18, min_version: 0, max_version: 4 }]);
        ApiVersionsResponse { error_code, api_versions }
    }

    /// The body of the answer on the wire: the error code, the advertised
    /// APIs as a compact array in which every entry ends with a tag buffer,
    /// a throttle time of zero, and the closing tag buffer.
    pub fn encode(&self) -> (bytes: Vec<u8>)
        ensures
            bytes@ == encode_api_versions_body(self.error_code, all_advertised(self.api_versions@)),
    {
        let mut versions: Vec<AdvertisedApi> = Vec::new();
        let mut i: usize = 0;
        while i < self.api_versions.len()
            invariant
                i <= self.api_versions@.len(),
                versions@.len() == i,
                forall|k: int| 0 <= k < i ==> versions@[k] == advertised(self.api_versions@[k]),
            decreases self.api_versions@.len() - i,
        {
            let v = self.api_versions[i];
            versions.push(
                AdvertisedApi {
                    api_key: v.api_key,
                    min_version: v.min_version,
                    max_version: v.max_version,
                },
            );
            i = i + 1;
        }
        assert(versions@ =~= all_advertised(self.api_versions@));
        let mut buffer = new_buffer();
        write_api_versions_body(&mut buffer, self.error_code, &versions);
        assert(written(buffer) =~= encode_api_versions_body(self.error_code, versions@));
        buffer_to_vec(&buffer)
    }
}

impl RequestHeader {
    /// Reads the fixed part of a header from the first eight bytes of
    /// `buffer`. A shorter buffer is no request.
    pub fn parse(buffer: &[u8]) -> (r: Result<Self, Error>)
        ensures
            match r {
                Ok(h) => buffer@.len() >= 8 && h.api_key == signed16(be16(buffer@))
                    && h.api_version == signed16(be16(buffer@.skip(2))) && h.correlation_id
                    == signed32(be32(buffer@.skip(4))) && h.client_id is None,
                Err(e) => buffer@.len() < 8 && e == Error::InvalidRequest,
            },
    {
        if buffer.len() < 8 {
            return Err(Error::InvalidRequest);
        }
        let mut src = cursor_over(buffer);
        let api_key = get_i16(&mut src);
        let api_version = get_i16(&mut src);
        let correlation_id = get_i32(&mut src);
        proof {
            assert(buffer@.skip(2).skip(2) =~= buffer@.skip(4));
        }
        Ok(RequestHeader { api_key, api_version, correlation_id, client_id: None })
    }

    /// The error code to answer with when the version of the request is
    /// outside 0 to 4, and nothing when it is inside.
    pub fn validate_version(&self) -> (r: Option<i16>)
        ensures
            r == if self.api_version < 0 || self.api_version > 4 {
                Some(35i16)
            } else {
                None
            },
    {
        if self.api_version < 0 || self.api_version > MAX_SUPPORTED_VERSION {
            Some(UNSUPPORTED_VERSION)
        } else {
            None
        }
    }
}

impl ProtocolParser {
    /// A framing codec. It holds no state.
    pub fn new() -> Self {
        ProtocolParser
    }

    /// Reads the header of a request and keeps all its bytes as payload.
    pub fn parse_request(&self, buffer: &[u8]) -> (r: Result<KafkaRequest, Error>)
        ensures
            match r {
                Ok(request) => buffer@.len() >= 8 && request.payload@ == buffer@
                    && request.header.api_key == signed16(be16(buffer@))
                    && request.header.api_version == signed16(be16(buffer@.skip(2)))
                    && request.header.correlation_id == signed32(be32(buffer@.skip(4)))
                    && request.header.client_id is None,
                Err(e) => buffer@.len() < 8 && e == Error::InvalidRequest,
            },
    {
        let header = RequestHeader::parse(buffer)?;
        Ok(KafkaRequest { header, payload: vstd::slice::slice_to_vec(buffer) })
    }

    /// The frame of a response: the length of what follows, the correlation
    /// id, and the payload.
    pub fn encode_response(&self, response: KafkaResponse) -> (out: Vec<u8>)
        requires
            fits_frame(response.payload@),
        ensures
            out@ == frame(response.correlation_id, response.payload@),
    {
        frame_payload(response.correlation_id, response.payload.as_slice())
    }

    /// The frame of a response, or nothing when the payload is too long
    /// for the 32-bit length field.
    pub fn try_encode_response(&self, response: &KafkaResponse) -> (r: Option<Vec<u8>>)
        ensures
            match r {
                Some(out) => fits_frame(response.payload@) && out@ == frame(
                    response.correlation_id,
                    response.payload@,
                ),
                None => !fits_frame(response.payload@),
            },
    {
        try_frame_payload(response.correlation_id, response.payload.as_slice())
    }
}

} // verus!
