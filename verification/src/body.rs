//! The `Bytes` boundary: response bodies arrive and leave as
//! `hyper::body::Bytes`. The value is opaque here; two trusted wrappers
//! convert it to and from a plain byte vector, speaking of its contents
//! through `bytes_content`.

use vstd::prelude::*;

use crate::model::full_rewrite;
use crate::rewrite::{rewrite_buffer, RewriteConfig};

verus! {

#[verifier::external_type_specification]
#[verifier::external_body]
pub struct ExBytes(hyper::body::Bytes);

/// The bytes that a `hyper::body::Bytes` value holds.
pub uninterp spec fn bytes_content(b: hyper::body::Bytes) -> Seq<u8>;

/// Relies on `Bytes`'s `AsRef<[u8]>` impl, which yields exactly the bytes
/// the value holds, and on `<[u8]>::to_vec`, which copies them.
#[verifier::external_body]
fn bytes_to_vec(b: &hyper::body::Bytes) -> (r: Vec<u8>)
    ensures
        r@ == bytes_content(*b),
{
    b.as_ref().to_vec()
}

/// Relies on `From<Vec<u8>> for Bytes`, which builds a value holding
/// exactly the vector's bytes.
#[verifier::external_body]
fn vec_to_bytes(v: Vec<u8>) -> (r: hyper::body::Bytes)
    ensures
        bytes_content(r) == v@,
{
    hyper::body::Bytes::from(v)
}

/// The whole rewrite over a response body: both loopback spellings become
/// the configured replacement host, then the target port bytes become the
/// replacement port bytes, each round scanning the previous round's output.
pub fn modify_json_output_with_host(body_bytes: hyper::body::Bytes, config: &RewriteConfig) -> (r:
    hyper::body::Bytes)
    requires
        config.wf(),
    ensures
        bytes_content(r) == full_rewrite(
            bytes_content(body_bytes),
            config.replacement_host@,
            config.target_port@,
            config.replacement_port@,
        ),
{
    let buffer = bytes_to_vec(&body_bytes);
    let rewritten = rewrite_buffer(&buffer, config);
    vec_to_bytes(rewritten)
}

} // verus!
