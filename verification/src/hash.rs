//! Names in compiled code are replaced by the 64-bit xxh3 hash of their
//! UTF-8 bytes.

use vstd::prelude::*;
use vstd::string::StringSliceAdditionalSpecFns;

verus! {

/// The 64-bit xxh3 hash (default seed) of a byte string.
pub uninterp spec fn xxh3_hash(data: Seq<u8>) -> u64;

/// The UTF-8 bytes of a name.
pub open spec fn name_bytes(name: Seq<char>) -> Seq<u8> {
    vstd::utf8::encode_utf8(name)
}

/// The hash of a name.
pub open spec fn name_hash(name: Seq<char>) -> u64 {
    xxh3_hash(name_bytes(name))
}

/// `xxhash_rust::xxh3::xxh3_64`: the 64-bit xxh3 hash with the default seed
/// and secret. It depends on the bytes alone, which is all the contract
/// claims; the value itself is left to the name `xxh3_hash`.
#[verifier::external_body]
pub(crate) fn hash_name(data: &[u8]) -> (r: u64)
    ensures
        r == xxh3_hash(data@),
{
    xxhash_rust::xxh3::xxh3_64(data)
}

/// The UTF-8 bytes of a string.
pub fn string_bytes(s: &String) -> (r: Vec<u8>)
    ensures
        r@ == name_bytes(s@),
{
    let bytes = s.as_str().as_bytes();
    vstd::slice::slice_to_vec(bytes)
}

} // verus!
