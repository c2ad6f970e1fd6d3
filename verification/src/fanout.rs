//! The hash fan-out rule. A key's tree layer is the number of leading zero
//! base-4 digits (2-bit groups) of the SHA-256 digest of its raw bytes: a
//! digest byte equal to 0 contributes 4 groups and the scan continues; a
//! non-zero byte contributes 3, 2, 1 or 0 groups (below 4, 16 or 64, or not)
//! and ends the scan. The layer depends on the key alone, never on tree state.

use sha2::Digest;
use vstd::prelude::*;

verus! {

/// Named result of `sha2::Sha256::digest`: the digest of `data`. The digest
/// is a function of the input bytes alone.
pub uninterp spec fn sha256_of(data: Seq<u8>) -> Seq<u8>;

/// Relies on `sha2::Sha256::digest`: returns the 32-byte SHA-256 digest of
/// the input, a function of the input bytes alone.
#[verifier::external_body]
fn sha256(data: &Vec<u8>) -> (r: Vec<u8>)
    ensures
        r@ == sha256_of(data@),
        r@.len() == 32,
{
    sha2::Sha256::digest(data.as_slice()).to_vec()
}

/// Leading zero 2-bit groups contributed by one non-zero digest byte.
pub open spec fn zeros_in_nonzero_byte(b: u8) -> int {
    if b < 4 {
        3
    } else if b < 16 {
        2
    } else if b < 64 {
        1
    } else {
        0
    }
}

/// Count of leading zero 2-bit groups of a digest, scanning from the front:
/// a zero byte contributes 4 groups and the scan continues, a non-zero byte
/// contributes its own leading zero groups and ends the scan.
pub open spec fn leading_zeros_spec(h: Seq<u8>) -> int
    decreases h.len(),
{
    if h.len() == 0 {
        0
    } else if h[0] == 0 {
        4 + leading_zeros_spec(h.drop_first())
    } else {
        zeros_in_nonzero_byte(h[0])
    }
}

/// The layer a key belongs to: the leading-zero count of its SHA-256 digest.
pub open spec fn layer_spec(key: Seq<u8>) -> int {
    leading_zeros_spec(sha256_of(key))
}

/// The leading-zero count never exceeds four groups per digest byte.
pub proof fn lemma_leading_zeros_bound(h: Seq<u8>)
    ensures
        0 <= leading_zeros_spec(h) <= 4 * h.len(),
    decreases h.len(),
{
    if h.len() > 0 && h[0] == 0 {
        lemma_leading_zeros_bound(h.drop_first());
    }
}

/// Counts the leading zero 2-bit groups of a digest. The count, four per
/// byte at most, must fit the result type.
pub fn leading_zeros_on_digest(digest: &Vec<u8>) -> (r: u32)
    requires
        4 * digest@.len() <= u32::MAX,
    ensures
        r == leading_zeros_spec(digest@),
{
    let n = digest.len();
    let mut count: u32 = 0;
    let mut i: usize = 0;
    proof {
        assert(digest@.skip(0) =~= digest@);
    }
    while i < n
        invariant
            n == digest@.len(),
            4 * n <= u32::MAX,
            i <= n,
            count == 4 * i,
            forall|j: int| 0 <= j < i ==> digest@[j] == 0,
            leading_zeros_spec(digest@) == count + leading_zeros_spec(digest@.skip(i as int)),
        decreases n - i,
    {
        let b = digest[i];
        proof {
            assert(digest@.skip(i as int)[0] == digest@[i as int]);
            assert(digest@.skip(i as int).drop_first() =~= digest@.skip(i as int + 1));
            lemma_leading_zeros_bound(digest@.skip(i as int));
        }
        if b == 0 {
            count = count + 4;
            i = i + 1;
        } else {
            let extra: u32 = if b < 4 {
                3
            } else if b < 16 {
                2
            } else if b < 64 {
                1
            } else {
                0
            };
            return count + extra;
        }
    }
    proof {
        assert(digest@.skip(n as int) =~= Seq::<u8>::empty());
    }
    count
}

/// Computes the layer of a key from the leading-zero count of its SHA-256
/// digest, in base-4 units. The digest has 32 bytes of at most 4 zero groups
/// each, so no key sits above layer 128.
pub fn leading_zeros_on_hash(key: &Vec<u8>) -> (r: u32)
    ensures
        r == layer_spec(key@),
        r <= 128,
{
    let digest = sha256(key);
    proof {
        lemma_leading_zeros_bound(digest@);
    }
    leading_zeros_on_digest(&digest)
}

/// Layer stability: the layer assigned to a key is a function of the key's
/// bytes alone — equal keys are assigned equal layers, whatever tree they are
/// inserted into and however often the rule is applied.
pub proof fn lemma_layer_stability(k1: Seq<u8>, k2: Seq<u8>)
    requires
        k1 == k2,
    ensures
        layer_spec(k1) == layer_spec(k2),
{
}

} // verus!
