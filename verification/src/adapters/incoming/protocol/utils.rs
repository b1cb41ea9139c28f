//! Stand-alone encoders for callers that hold plain values.
use crate::adapters::incoming::protocol::messages::encoding::{
    encode_api_versions_body, write_api_versions_body,
};
use crate::adapters::incoming::protocol::messages::response::ApiVersion;
use crate::codec::buffer::{buffer_to_vec, new_buffer, written};
use crate::codec::varint::{encode_unsigned_varint as varint_bytes, VarInt};
use vstd::prelude::*;

verus! {

/// The advertised API that a triple of key, lowest and highest version
/// stands for.
pub open spec fn api_version_of(t: (i16, i16, i16)) -> ApiVersion {
    ApiVersion { api_key: t.0, min_version: t.1, max_version: t.2 }
}

/// The encoding of `value` as an unsigned varint.
pub fn encode_unsigned_varint(value: u32) -> (bytes: Vec<u8>)
    ensures
        bytes@ == varint_bytes(value as nat),
{
    let mut bytes = new_buffer();
    VarInt::serialize(value as u64, &mut bytes);
    assert(written(bytes) =~= varint_bytes(value as nat));
    buffer_to_vec(&bytes)
}

/// The body of an `ApiVersions` response that carries `error_code` and
/// advertises `api_versions`, each given as key, lowest and highest version.
pub fn encode_api_versions_response(error_code: i16, api_versions: &[(i16, i16, i16)]) -> (bytes:
    Vec<u8>)
    ensures
        bytes@ == encode_api_versions_body(
            error_code,
            api_versions@.map_values(|t: (i16, i16, i16)| api_version_of(t)),
        ),
{
    let mut versions: Vec<ApiVersion> = Vec::new();
    let mut i: usize = 0;
    while i < api_versions.len()
        invariant
            i <= api_versions@.len(),
            versions@.len() == i,
            forall|k: int| 0 <= k < i ==> versions@[k] == api_version_of(api_versions@[k]),
        decreases api_versions@.len() - i,
    {
        let t = api_versions[i];
        versions.push(ApiVersion { api_key: t.0, min_version: t.1, max_version: t.2 });
        i = i + 1;
    }
    assert(versions@ =~= api_versions@.map_values(|t: (i16, i16, i16)| api_version_of(t)));
    let mut buffer = new_buffer();
    write_api_versions_body(&mut buffer, error_code, &versions);
    assert(written(buffer) =~= encode_api_versions_body(error_code, versions@));
    buffer_to_vec(&buffer)
}

} // verus!
