//! Content hashes.

use vstd::prelude::*;

verus! {

/// The BLAKE3 hash of some bytes, in hexadecimal.
pub uninterp spec fn blake3_hex(bytes: Seq<u8>) -> Seq<char>;

/// `blake3::hash` and `Hash::to_hex`: the hash of the bytes in hexadecimal,
/// which depends on the bytes alone.
#[verifier::external_body]
pub(crate) fn hex_digest(bytes: &[u8]) -> (r: String)
    ensures
        r@ == blake3_hex(bytes@),
{
    blake3::hash(bytes).to_hex().to_string()
}

/// The name that a file's content goes by.
pub fn hash_file_blake3(content: &Vec<u8>) -> (r: String)
    ensures
        r@ == blake3_hex(content@),
{
    hex_digest(content.as_slice())
}

} // verus!
