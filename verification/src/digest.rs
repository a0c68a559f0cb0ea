//! SHA-256 digests and base64 text, taken from outside crates behind
//! named results.

use vstd::prelude::*;

verus! {

pub uninterp spec fn sha256_of(bytes: Seq<u8>) -> Seq<u8>;

pub uninterp spec fn base64_of(bytes: Seq<u8>) -> Seq<char>;

/// Relies on ring::digest::digest with the SHA-256 algorithm: a 32-byte
/// digest that is a function of the input bytes alone.
#[verifier::external_body]
pub(crate) fn sha256(data: &[u8]) -> (r: Vec<u8>)
    ensures
        r@ == sha256_of(data@),
        r@.len() == 32,
{
    ring::digest::digest(&ring::digest::SHA256, data).as_ref().to_vec()
}

/// Relies on data_encoding::BASE64.encode: padded RFC 4648 base64 text,
/// a function of the input bytes alone.
#[verifier::external_body]
pub(crate) fn base64_encode(data: &Vec<u8>) -> (r: String)
    ensures
        r@ == base64_of(data@),
{
    data_encoding::BASE64.encode(data)
}

} // verus!
