//! Mapping string keys to bucket indices through a SHA-256 digest.
use sha2::Digest;
use vstd::prelude::*;

verus! {

/// The SHA-256 digest of the UTF-8 encoding of `s`.
pub uninterp spec fn sha256_of(s: Seq<char>) -> Seq<u8>;

/// Relies on `sha2::Sha256::digest`: the 32-byte digest of the string's bytes,
/// which depends on those bytes alone.
#[verifier::external_body]
pub(crate) fn sha256_digest(s: &str) -> (r: Vec<u8>)
    ensures
        r@ == sha256_of(s@),
        r@.len() == 32,
{
    sha2::Sha256::digest(s.as_bytes()).to_vec()
}

/// 256 to the power `n`.
pub open spec fn pow256(n: nat) -> nat
    decreases n,
{
    if n == 0 {
        1
    } else {
        256 * pow256((n - 1) as nat)
    }
}

/// The unsigned integer that `b` encodes, most significant byte first.
pub open spec fn be_value(b: Seq<u8>) -> nat
    decreases b.len(),
{
    if b.len() == 0 {
        0
    } else {
        be_value(b.drop_last()) * 256 + b.last() as nat
    }
}

/// The bucket, among `n`, that a digest selects: its first eight bytes read
/// as a big-endian integer, modulo `n`.
pub open spec fn digest_bucket(digest: Seq<u8>, n: nat) -> nat
    recommends
        n > 0,
{
    be_value(digest.subrange(0, 8)) % n
}

/// The bucket, among `n`, that the key `k` selects.
pub open spec fn bucket_of(k: Seq<char>, n: nat) -> nat
    recommends
        n > 0,
{
    digest_bucket(sha256_of(k), n)
}

proof fn lemma_be_value_bound(b: Seq<u8>)
    ensures
        be_value(b) < pow256(b.len()),
    decreases b.len(),
{
    if b.len() > 0 {
        let p = b.drop_last();
        lemma_be_value_bound(p);
        let x = be_value(p);
        let q = pow256(p.len());
        let l = b.last() as nat;
        assert(x * 256 + l < q * 256) by (nonlinear_arith)
            requires
                x < q,
                l < 256,
        ;
    }
}

/// Reads the first eight bytes of `digest` as a big-endian integer and
/// reduces it modulo `arr_size`.
pub fn index_from_digest(digest: &[u8], arr_size: usize) -> (r: usize)
    requires
        digest@.len() >= 8,
        arr_size > 0,
    ensures
        r == digest_bucket(digest@, arr_size as nat),
        r < arr_size,
{
    let mut acc: u64 = 0;
    let mut i: usize = 0;
    proof {
        reveal_with_fuel(pow256, 9);
        assert(pow256(8) == 0x1_0000_0000_0000_0000);
    }
    while i < 8
        invariant
            i <= 8,
            digest@.len() >= 8,
            acc as nat == be_value(digest@.subrange(0, i as int)),
            pow256(8) == 0x1_0000_0000_0000_0000,
        decreases 8 - i,
    {
        let ghost prefix = digest@.subrange(0, i as int);
        let ghost next = digest@.subrange(0, i + 1);
        proof {
            assert(next.drop_last() =~= prefix);
            lemma_be_value_bound(next);
            assert(pow256(next.len()) <= pow256(8)) by {
                reveal_with_fuel(pow256, 9);
            }
        }
        acc = acc * 256 + digest[i] as u64;
        i = i + 1;
    }
    (acc % (arr_size as u64)) as usize
}

/// The bucket, among `arr_size`, that `value` selects: the first eight bytes
/// of its SHA-256 digest as a big-endian integer, modulo `arr_size`.
pub fn hash_to_index(value: &str, arr_size: usize) -> (r: usize)
    requires
        arr_size > 0,
    ensures
        r == bucket_of(value@, arr_size as nat),
        r < arr_size,
{
    let digest = sha256_digest(value);
    index_from_digest(digest.as_slice(), arr_size)
}

} // verus!
