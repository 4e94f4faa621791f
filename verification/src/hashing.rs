//! Content integrity: the 160-bit digest of a downloaded body, printed as
//! lowercase hex, compared against a manifest's expected hash.

use vstd::prelude::*;

verus! {

/// The SHA-1 digest of `data`: 20 bytes, named here and computed only by the
/// `sha1` crate.
pub uninterp spec fn spec_sha1(data: Seq<u8>) -> Seq<u8>;

/// The lowercase hex character for a value below 16 (48 is '0', 97 is 'a').
pub open spec fn spec_hex_char(v: int) -> char
    recommends
        0 <= v < 16,
{
    if v < 10 {
        ((v + 48) as u8) as char
    } else {
        ((v + 87) as u8) as char
    }
}

/// Lowercase hex encoding: two digits per byte, high nibble first.
pub open spec fn spec_hex_lower(data: Seq<u8>) -> Seq<char>
    decreases data.len(),
{
    if data.len() == 0 {
        Seq::empty()
    } else {
        seq![spec_hex_char(data[0] as int / 16), spec_hex_char(data[0] as int % 16)]
            + spec_hex_lower(data.drop_first())
    }
}

/// Relies on sha1's `Sha1` (via the `Digest` trait): the digest is a function
/// of the input bytes alone and is 20 bytes long.
#[verifier::external_body]
fn sha1_digest(data: &Vec<u8>) -> (r: Vec<u8>)
    ensures
        r@ == spec_sha1(data@),
        r@.len() == 20,
{
    let mut hasher = <sha1::Sha1 as sha1::Digest>::new();
    sha1::Digest::update(&mut hasher, data.as_slice());
    sha1::Digest::finalize(hasher).to_vec()
}

/// Relies on `hex::encode`: two lowercase hex digits per input byte, high
/// nibble first.
#[verifier::external_body]
fn hex_encode(data: &Vec<u8>) -> (r: String)
    ensures
        r@ == spec_hex_lower(data@),
{
    hex::encode(data)
}

/// The digest of a body as the manifest states it: lowercase hex of SHA-1.
pub open spec fn spec_content_hash(body: Seq<u8>) -> Seq<char> {
    spec_hex_lower(spec_sha1(body))
}

pub fn content_hash_hex(body: &Vec<u8>) -> (r: String)
    ensures
        r@ == spec_content_hash(body@),
        r@.len() == 40,
{
    let digest = sha1_digest(body);
    proof {
        lemma_hex_lower_len(digest@);
    }
    hex_encode(&digest)
}

/// Hex encoding doubles the length.
proof fn lemma_hex_lower_len(data: Seq<u8>)
    ensures
        spec_hex_lower(data).len() == 2 * data.len(),
    decreases data.len(),
{
    if data.len() > 0 {
        lemma_hex_lower_len(data.drop_first());
    }
}

/// A body passes verification when the expected hash is empty (verification
/// skipped) or equals the computed digest.
pub open spec fn spec_hash_ok(expected: Seq<char>, body: Seq<u8>) -> bool {
    expected.len() == 0 || expected == spec_content_hash(body)
}

} // verus!
