//! Leaf and parent hashing primitives.
//!
//! Every digest in the library is the SHA-256 of some byte string.  The digest
//! itself comes from the `sha2` crate through the single trusted wrapper
//! [`hash`]; its value is named by the uninterpreted function [`sha256_of`].
//! Parent and leaf hashing are verified code that assembles the input bytes
//! and makes that one call.

use vstd::prelude::*;
use vstd::bytes::{spec_u64_to_le_bytes, u64_to_le_bytes};
use vstd::utf8::encode_utf8;
use sha2::Digest;

verus! {

/// The SHA-256 digest of a byte string, as the `sha2` crate computes it.
/// It is a function of the input bytes alone; nothing further is assumed
/// of it.
pub uninterp spec fn sha256_of(data: Seq<u8>) -> Seq<u8>;

/// Compute the SHA-256 digest of `data`.
///
/// Relies on `sha2::Sha256::digest`: a 32-byte digest, determined by the
/// input bytes alone.
#[verifier::external_body]
pub fn hash(data: &[u8]) -> (out: [u8; 32])
    ensures
        out@ == sha256_of(data@),
{
    let digest = sha2::Sha256::digest(data);
    let mut out = [0u8; 32];
    out.copy_from_slice(&digest);
    out
}

/// The digest of an internal node: SHA-256 of `left || right`, in that order.
pub open spec fn spec_parent_hash(left: Seq<u8>, right: Seq<u8>) -> Seq<u8> {
    sha256_of(left + right)
}

/// The commitment of one `(address, amount)` row: SHA-256 of the UTF-8 bytes
/// of the address followed by the 8-byte little-endian encoding of the amount.
pub open spec fn spec_leaf_hash(address: Seq<char>, amount: u64) -> Seq<u8> {
    sha256_of(encode_utf8(address) + spec_u64_to_le_bytes(amount))
}

/// The all-zero padding leaf.
pub open spec fn zero_hash() -> Seq<u8> {
    Seq::new(32, |i: int| 0u8)
}

/// Hash two 32-byte child nodes into one parent hash.
pub fn hash_children(left: &[u8; 32], right: &[u8; 32]) -> (out: [u8; 32])
    ensures
        out@ == spec_parent_hash(left@, right@),
{
    let mut combined: Vec<u8> = Vec::new();
    combined.extend_from_slice(left.as_slice());
    combined.extend_from_slice(right.as_slice());
    assert(combined@ =~= left@ + right@);
    hash(combined.as_slice())
}

/// Hash one `(address, amount)` row into its leaf commitment.
pub fn leaf_hash(address: &str, amount: u64) -> (out: [u8; 32])
    ensures
        out@ == spec_leaf_hash(address@, amount),
{
    let mut data: Vec<u8> = Vec::new();
    data.extend_from_slice(address.as_bytes());
    let amount_bytes = u64_to_le_bytes(amount);
    data.extend_from_slice(amount_bytes.as_slice());
    assert(data@ =~= encode_utf8(address@) + spec_u64_to_le_bytes(amount));
    hash(data.as_slice())
}

/// The byte-sequence views of a sequence of 32-byte nodes, so that tree and
/// proof contents can be spoken of as plain sequences of byte strings.
pub open spec fn node_views(v: Seq<[u8; 32]>) -> Seq<Seq<u8>> {
    Seq::new(v.len(), |i: int| v[i]@)
}

/// The byte-sequence views of a sequence of loose byte vectors.
pub open spec fn byte_vec_views(v: Seq<Vec<u8>>) -> Seq<Seq<u8>> {
    Seq::new(v.len(), |i: int| v[i]@)
}

/// Compare two 32-byte digests bit for bit.
pub fn hash_eq(a: &[u8; 32], b: &[u8; 32]) -> (r: bool)
    ensures
        r == (a@ == b@),
{
    let mut i: usize = 0;
    while i < 32
        invariant
            i <= 32,
            forall|j: int| 0 <= j < i ==> a@[j] == b@[j],
        decreases 32 - i,
    {
        if a[i] != b[i] {
            return false;
        }
        i += 1;
    }
    assert(a@ =~= b@);
    true
}

/// A fresh all-zero 32-byte node, used for padding leaves and the unused
/// slot at index 0.
pub fn zero_node() -> (out: [u8; 32])
    ensures
        out@ == zero_hash(),
{
    let out = [0u8; 32];
    assert(out@ =~= zero_hash());
    out
}

} // verus!
