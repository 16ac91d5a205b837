use vstd::prelude::*;

verus! {

/// The SHA-256 digest of a byte string.
pub uninterp spec fn sha256_of(data: Seq<u8>) -> [u8; 32];

/// The all-zero digest, which stands in for a missing right sibling.
pub open spec fn zero_digest() -> [u8; 32] {
    vstd::array::spec_array_fill_for_copy_type::<u8, 32>(0u8)
}

/// The parent of two nodes: the digest of their ordered concatenation.
pub open spec fn combine(left: [u8; 32], right: [u8; 32]) -> [u8; 32] {
    sha256_of(left@ + right@)
}

/// Relies on `sha2::Sha256::digest` (from the `Digest` trait): the SHA-256
/// digest of the given bytes, which depends on those bytes alone.
#[verifier::external_body]
fn sha256(data: &[u8]) -> (r: [u8; 32])
    ensures
        r == sha256_of(data@),
{
    <sha2::Sha256 as sha2::Digest>::digest(data).into()
}

/// Hashes two nodes into their parent, left before right.
pub fn hash_nodes(left: [u8; 32], right: [u8; 32]) -> (r: [u8; 32])
    ensures
        r == combine(left, right),
{
    broadcast use vstd::array::group_array_axioms;
    let mut buf: Vec<u8> = Vec::with_capacity(64);
    let mut i: usize = 0;
    while i < 32
        invariant
            i <= 32,
            buf@ == left@.take(i as int),
        decreases 32 - i,
    {
        buf.push(left[i]);
        i = i + 1;
        assert(buf@ =~= left@.take(i as int));
    }
    let mut j: usize = 0;
    while j < 32
        invariant
            j <= 32,
            buf@ == left@ + right@.take(j as int),
        decreases 32 - j,
    {
        buf.push(right[j]);
        j = j + 1;
        assert(buf@ =~= left@ + right@.take(j as int));
    }
    assert(right@.take(32) =~= right@);
    sha256(buf.as_slice())
}

} // verus!
