//! Content hashing for duplicate detection.
//!
//! Digests come from the BLAKE3 hash, reached through a small trusted
//! surface: the digest of a byte stream is named by an uninterpreted
//! spec function, and `hasher_fed` names the bytes an incremental
//! hasher has been fed so far.

use vstd::prelude::*;

verus! {

/// The BLAKE3 digest of a byte stream. The digest is a pure function of
/// the bytes alone; nothing further is assumed about its value.
pub uninterp spec fn blake3_digest(bytes: Seq<u8>) -> Seq<u8>;

#[verifier::external_type_specification]
#[verifier::external_body]
pub struct ExHasher(blake3::Hasher);

/// The bytes an incremental hasher has accumulated so far.
pub uninterp spec fn hasher_fed(h: blake3::Hasher) -> Seq<u8>;

/// Relies on blake3::Hasher::new: a fresh hasher over no input.
#[verifier::external_body]
pub fn hasher_new() -> (h: blake3::Hasher)
    ensures
        hasher_fed(h) == Seq::<u8>::empty(),
{
    blake3::Hasher::new()
}

/// Relies on blake3::Hasher::update: appends input bytes to the hashed
/// stream.
#[verifier::external_body]
pub fn hasher_update(h: &mut blake3::Hasher, data: &[u8])
    ensures
        hasher_fed(*final(h)) == hasher_fed(*old(h)) + data@,
{
    h.update(data);
}

/// Relies on blake3::Hasher::finalize: returns the 32-byte BLAKE3
/// digest of all input fed so far, a function of those bytes alone.
#[verifier::external_body]
pub fn hasher_finalize(h: &blake3::Hasher) -> (digest: Vec<u8>)
    ensures
        digest@ == blake3_digest(hasher_fed(*h)),
        digest@.len() == 32,
{
    h.finalize().as_bytes().to_vec()
}

/// Digest of a byte slice in one call.
pub fn hash_bytes(data: &[u8]) -> (digest: Vec<u8>)
    ensures
        digest@ == blake3_digest(data@),
        digest@.len() == 32,
{
    let mut h = hasher_new();
    hasher_update(&mut h, data);
    proof {
        assert(hasher_fed(h) =~= data@);
    }
    hasher_finalize(&h)
}

/// Byte-for-byte equality of two byte vectors.
pub fn bytes_eq(a: &Vec<u8>, b: &Vec<u8>) -> (r: bool)
    ensures
        r == (a@ == b@),
{
    if a.len() != b.len() {
        return false;
    }
    let mut i: usize = 0;
    while i < a.len()
        invariant
            0 <= i <= a@.len(),
            a@.len() == b@.len(),
            forall|k: int| 0 <= k < i ==> a@[k] == b@[k],
        decreases a@.len() - i,
    {
        if a[i] != b[i] {
            return false;
        }
        i = i + 1;
    }
    proof {
        assert(a@ =~= b@);
    }
    true
}

/// Equality of two optional digests: both present and byte-identical.
pub fn opt_digest_eq(a: &Option<Vec<u8>>, b: &Option<Vec<u8>>) -> (r: bool)
    ensures
        r == ((*a) is Some && (*b) is Some && (*a)->0@ == (*b)->0@),
{
    match (a, b) {
        (Some(x), Some(y)) => bytes_eq(x, y),
        _ => false,
    }
}

} // verus!
