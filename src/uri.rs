//! Classification of token URIs into an embedded payload or a network
//! location, and decoding of embedded payloads.

use crate::text::{after_last, find_last, has_marker, has_prefix, last_match, starts_with};
use vstd::prelude::*;
use vstd::string::*;

verus! {

#[verifier::external_type_specification]
#[verifier::external_body]
pub struct ExDecodeError(base64::DecodeError);

/// The bytes that standard, padded base64 decoding gives for a text, or
/// `None` where the text is not valid base64.
pub uninterp spec fn base64_decoded(s: Seq<char>) -> Option<Seq<u8>>;

/// Relies on `base64::decode` (standard alphabet; missing padding is
/// accepted, excess padding is not): the result depends on the text alone,
/// and it fails exactly where that text is not valid base64. Its length arithmetic cannot overflow for a `str` that
/// fits in memory.
#[verifier::external_body]
fn base64_decode(s: &str) -> (r: Result<Vec<u8>, base64::DecodeError>)
    ensures
        match r {
            Ok(b) => base64_decoded(s@) == Some(b@),
            Err(_) => base64_decoded(s@) is None,
        },
{
    base64::decode(s)
}

/// Where a token's metadata document comes from.
#[derive(Debug, PartialEq, Eq)]
pub enum UriSource {
    /// The base64 text inlined in a `data:` URI.
    Embedded(String),
    /// An `https://` location to fetch.
    Remote(String),
}

/// Why the metadata document of a recognised token could not be obtained.
#[derive(Debug, Clone, Copy, PartialEq, Eq, Structural)]
pub enum ResolveError {
    /// An embedded payload is not valid base64.
    Decode,
    /// A fetch failed in transport or answered with a non-success status.
    Network,
    /// The document does not have the metadata shape.
    Schema,
}

pub open spec fn data_prefix() -> Seq<char> {
    "data:"@
}

pub open spec fn base64_marker() -> Seq<char> {
    "base64,"@
}

pub open spec fn ipfs_marker() -> Seq<char> {
    "ipfs://"@
}

pub open spec fn https_prefix() -> Seq<char> {
    "https://"@
}

/// The public gateway through which content-addressed documents are fetched.
pub open spec fn gateway_prefix() -> Seq<char> {
    "https://gateway.pinata.cloud/ipfs/"@
}

/// A URI whose metadata is inlined as base64.
pub open spec fn is_embedded(u: Seq<char>) -> bool {
    has_prefix(u, data_prefix()) && has_marker(u, base64_marker())
}

/// A generic location, with `https://` put in front unless it is already there.
pub open spec fn web_url(u: Seq<char>) -> Seq<char> {
    if has_prefix(u, https_prefix()) {
        u
    } else {
        https_prefix() + u
    }
}

/// The location to fetch for a URI that is not embedded.
pub open spec fn remote_url(u: Seq<char>) -> Seq<char> {
    if has_marker(u, ipfs_marker()) {
        gateway_prefix() + after_last(u, ipfs_marker())
    } else {
        web_url(u)
    }
}

/// Prefixes `https://` to a location that does not start with it.
pub fn format_uri(uri: String) -> (r: String)
    ensures
        r@ == web_url(uri@),
{
    let https = "https://";
    proof {
        reveal_strlit("https://");
    }
    if starts_with(uri.as_str(), https) {
        uri
    } else {
        String::from_str(https).concat(uri.as_str())
    }
}

/// Sorts a token URI into the way its document is obtained, first match
/// winning: an embedded `data:` payload, a content-addressed `ipfs://`
/// identifier, or a generic web location.
pub fn classify_uri(uri: &str) -> (r: UriSource)
    ensures
        match r {
            UriSource::Embedded(p) => is_embedded(uri@) && p@ == after_last(uri@, base64_marker()),
            UriSource::Remote(url) => !is_embedded(uri@) && url@ == remote_url(uri@),
        },
{
    let data = "data:";
    let b64 = "base64,";
    let ipfs = "ipfs://";
    let gateway = "https://gateway.pinata.cloud/ipfs/";
    proof {
        reveal_strlit("data:");
        reveal_strlit("base64,");
        reveal_strlit("ipfs://");
        reveal_strlit("https://gateway.pinata.cloud/ipfs/");
    }
    let n = uri.unicode_len();
    if starts_with(uri, data) {
        if let Some(i) = find_last(uri, b64) {
            let payload = uri.substring_char(i + 7, n);
            return UriSource::Embedded(String::from_str(payload));
        }
    }
    match find_last(uri, ipfs) {
        Some(i) => {
            let id = uri.substring_char(i + 7, n);
            UriSource::Remote(String::from_str(gateway).concat(id))
        },
        None => UriSource::Remote(format_uri(String::from_str(uri))),
    }
}

/// The bytes of an embedded payload, or `Decode` where it is not valid base64.
pub fn resolve_embedded(payload: &str) -> (r: Result<Vec<u8>, ResolveError>)
    ensures
        match base64_decoded(payload@) {
            Some(b) => r matches Ok(v) && v@ == b,
            None => r == Err::<Vec<u8>, ResolveError>(ResolveError::Decode),
        },
{
    match base64_decode(payload) {
        Ok(bytes) => Ok(bytes),
        Err(_) => Err(ResolveError::Decode),
    }
}

} // verus!
