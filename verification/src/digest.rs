//! Content hashing: the integrity digest of an uploaded payload, stored as
//! lowercase hexadecimal text and computed before any body transform.

use vstd::prelude::*;

use blake2::Digest;

use crate::hexfmt::hex_encode;
use crate::hexfmt::hex_of;

verus! {

/// The BLAKE2b-512 digest of a byte string: a fixed 64-byte value that
/// depends on the bytes alone.
pub uninterp spec fn blake2b512_of(bytes: Seq<u8>) -> Seq<u8>;

/// Relies on blake2's `Blake2b512` through the `Digest` trait: the digest is
/// a pure function of the input bytes, and the output size of `Blake2b512`
/// is fixed at 64 bytes.
#[verifier::external_body]
fn blake2b512(bytes: &Vec<u8>) -> (r: Vec<u8>)
    ensures
        r@ == blake2b512_of(bytes@),
        r@.len() == 64,
{
    blake2::Blake2b512::digest(bytes.as_slice()).as_slice().to_vec()
}

/// The digest of a payload in its stored form: lowercase hexadecimal text.
pub open spec fn content_hash_chars(bytes: Seq<u8>) -> Seq<char> {
    hex_of(blake2b512_of(bytes))
}

/// Computes the stored digest text of a payload.
pub fn content_hash(bytes: &Vec<u8>) -> (r: String)
    ensures
        r@ == content_hash_chars(bytes@),
        r@.len() == 128,
{
    let digest = blake2b512(bytes);
    proof {
        crate::hexfmt::lemma_hex_of_len(digest@);
    }
    hex_encode(&digest)
}

} // verus!
