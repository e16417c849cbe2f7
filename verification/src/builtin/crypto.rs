//! Digests.

use sha1::Digest;
use vstd::prelude::*;

verus! {

/// The SHA-1 digest of a text: the digest of the bytes that encode the
/// text in UTF-8.
pub uninterp spec fn sha1_digest(text: Seq<char>) -> Seq<u8>;

/// `Digest::digest` of the crate `sha1`, for its hasher `Sha1`: the result
/// is the SHA-1 digest of the text's bytes, which the crate gives the
/// output size of 20 bytes.
#[verifier::external_body]
fn digest(text: &str) -> (bytes: Vec<u8>)
    ensures
        bytes@ == sha1_digest(text@),
        bytes@.len() == 20,
{
    sha1::Sha1::digest(text).to_vec()
}

/// The SHA-1 digest of `string`, 20 bytes long.
pub fn sha1(string: String) -> (bytes: Vec<u8>)
    ensures
        bytes@ == sha1_digest(string@),
        bytes@.len() == 20,
{
    digest(string.as_str())
}

} // verus!
