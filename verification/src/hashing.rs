use blake2::digest::Update;
use blake2::digest::VariableOutput;
use vstd::prelude::*;

verus! {

/// The 32-byte BLAKE2b-256 digest of a byte sequence: the content identity
/// used by the manifest and the blob cache. The digest is a function of the
/// bytes alone.
pub uninterp spec fn blake2b256_of(bytes: Seq<u8>) -> Seq<u8>;

/// Relies on `blake2::Blake2bVar` with a 32-byte output (unkeyed): hashing the
/// whole input in one update yields the BLAKE2b-256 digest of those bytes.
#[verifier::external_body]
pub(crate) fn blake2b256(bytes: &[u8]) -> (r: Vec<u8>)
    ensures
        r@ == blake2b256_of(bytes@),
        r@.len() == 32,
{
    let mut out = vec![0u8; 32];
    if let Ok(mut hasher) = blake2::Blake2bVar::new(32) {
        hasher.update(bytes);
        let _ = hasher.finalize_variable(&mut out);
    }
    out
}

/// Computes the digest of `bytes` and compares it with an expected one;
/// the expected digest is taken as raw bytes.
pub fn digest_matches(bytes: &[u8], expected: &[u8]) -> (r: bool)
    ensures
        r == (blake2b256_of(bytes@) == expected@),
{
    let actual = blake2b256(bytes);
    slices_equal(actual.as_slice(), expected)
}

/// Byte-for-byte equality of two slices.
pub fn slices_equal(a: &[u8], b: &[u8]) -> (r: bool)
    ensures
        r == (a@ == b@),
{
    if a.len() != b.len() {
        assert(a@.len() != b@.len());
        return false;
    }
    let mut i: usize = 0;
    while i < a.len()
        invariant
            0 <= i <= a@.len(),
            a@.len() == b@.len(),
            forall|j: int| 0 <= j < i ==> a@[j] == b@[j],
        decreases a@.len() - i,
    {
        if a[i] != b[i] {
            return false;
        }
        i += 1;
    }
    assert(a@ =~= b@);
    true
}

} // verus!
