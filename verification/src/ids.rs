//! Identifier derivation: collision-resistant ids are the Blake2-256 digest of
//! a preimage built from a domain salt, a caller-supplied random seed, and a
//! strictly increasing nonce, folded down to a `u128` key.

use vstd::prelude::*;

verus! {

/// The Blake2-256 digest of a byte sequence, named; its value is fixed by the
/// hash function alone.
pub uninterp spec fn blake2_of(data: Seq<u8>) -> Seq<u8>;

/// Relies on `sp_crypto_hashing::blake2_256`: a 32-byte Blake2b digest that
/// depends on the input bytes alone.
#[verifier::external_body]
pub(crate) fn blake2_256(data: &Vec<u8>) -> (r: [u8; 32])
    ensures
        r@ == blake2_of(data@),
{
    sp_crypto_hashing::blake2_256(data.as_slice())
}

/// The little-endian bytes of `n`, `count` bytes long.
pub open spec fn le_bytes(n: nat, count: nat) -> Seq<u8>
    decreases count,
{
    if count == 0 {
        Seq::<u8>::empty()
    } else {
        seq![(n % 256) as u8] + le_bytes(n / 256, (count - 1) as nat)
    }
}

pub open spec fn pow256(count: nat) -> nat
    decreases count,
{
    if count == 0 {
        1
    } else {
        256 * pow256((count - 1) as nat)
    }
}

proof fn lemma_pow256_16()
    ensures
        pow256(16) == 0x100000000000000000000000000000000,
{
    reveal_with_fuel(pow256, 17);
    assert(pow256(16) == 0x100000000000000000000000000000000);
}

proof fn lemma_pow256_pos(count: nat)
    ensures
        pow256(count) >= 1,
    decreases count,
{
    if count > 0 {
        lemma_pow256_pos((count - 1) as nat);
    }
}

proof fn lemma_le_bytes_len(n: nat, count: nat)
    ensures
        le_bytes(n, count).len() == count,
    decreases count,
{
    if count > 0 {
        lemma_le_bytes_len(n / 256, (count - 1) as nat);
    }
}

/// Distinct numbers below `256^count` have distinct little-endian encodings.
proof fn lemma_le_bytes_injective(n1: nat, n2: nat, count: nat)
    requires
        n1 < pow256(count),
        n2 < pow256(count),
        le_bytes(n1, count) == le_bytes(n2, count),
    ensures
        n1 == n2,
    decreases count,
{
    if count == 0 {
        assert(n1 == 0 && n2 == 0);
    } else {
        let s1 = le_bytes(n1, count);
        let s2 = le_bytes(n2, count);
        assert(s1[0] == (n1 % 256) as u8);
        assert(s2[0] == (n2 % 256) as u8);
        assert(s1.subrange(1, s1.len() as int) =~= le_bytes(n1 / 256, (count - 1) as nat));
        assert(s2.subrange(1, s2.len() as int) =~= le_bytes(n2 / 256, (count - 1) as nat));
        assert(n1 / 256 < pow256((count - 1) as nat)) by {
            assert(pow256(count) == 256 * pow256((count - 1) as nat));
        };
        assert(n2 / 256 < pow256((count - 1) as nat)) by {
            assert(pow256(count) == 256 * pow256((count - 1) as nat));
        };
        lemma_le_bytes_injective(n1 / 256, n2 / 256, (count - 1) as nat);
        assert(n1 == 256 * (n1 / 256) + n1 % 256);
        assert(n2 == 256 * (n2 / 256) + n2 % 256);
    }
}

/// The preimage hashed to derive an id: salt, then seed, then the nonce's
/// 16 little-endian bytes.
pub open spec fn id_preimage(salt: Seq<u8>, seed: Seq<u8>, nonce: u128) -> Seq<u8> {
    salt + seed + le_bytes(nonce as nat, 16)
}

/// Fixed salt and seed and distinct nonces give distinct preimages: the nonce
/// is embedded at a fixed offset of the preimage, so no two id-generating
/// calls in one run ever hash the same bytes.
pub proof fn lemma_id_preimage_injective(salt: Seq<u8>, seed: Seq<u8>, n1: u128, n2: u128)
    requires
        n1 != n2,
    ensures
        id_preimage(salt, seed, n1) != id_preimage(salt, seed, n2),
{
    lemma_le_bytes_len(n1 as nat, 16);
    lemma_le_bytes_len(n2 as nat, 16);
    lemma_pow256_16();
    if id_preimage(salt, seed, n1) == id_preimage(salt, seed, n2) {
        let p1 = id_preimage(salt, seed, n1);
        let p2 = id_preimage(salt, seed, n2);
        let off = salt.len() + seed.len();
        assert(p1.subrange(off as int, p1.len() as int) =~= le_bytes(n1 as nat, 16));
        assert(p2.subrange(off as int, p2.len() as int) =~= le_bytes(n2 as nat, 16));
        lemma_le_bytes_injective(n1 as nat, n2 as nat, 16);
    }
}

/// Big-endian fold of the first `count` bytes of a digest into a number.
pub open spec fn be_fold(s: Seq<u8>, count: nat) -> nat
    decreases count,
{
    if count == 0 {
        0
    } else {
        (be_fold(s, (count - 1) as nat) * 256 + s[count - 1]) as nat
    }
}

proof fn lemma_be_fold_bound(s: Seq<u8>, count: nat)
    requires
        count <= s.len(),
    ensures
        be_fold(s, count) < pow256(count),
    decreases count,
{
    if count > 0 {
        lemma_be_fold_bound(s, (count - 1) as nat);
    }
}

/// The `u128` id taken from a 32-byte digest: the fold of its first 16 bytes.
pub open spec fn id_of_digest(digest: Seq<u8>) -> u128
    recommends
        digest.len() == 32,
{
    be_fold(digest, 16) as u128
}

/// The id derived from a salt, a seed and a nonce.
pub open spec fn spec_generate_id(salt: Seq<u8>, seed: Seq<u8>, nonce: u128) -> u128 {
    id_of_digest(blake2_of(id_preimage(salt, seed, nonce)))
}

/// Appends the 16 little-endian bytes of `n` to `out`.
pub(crate) fn push_le_bytes(out: &mut Vec<u8>, n: u128)
    ensures
        final(out)@ == old(out)@ + le_bytes(n as nat, 16),
{
    let mut d: u128 = n;
    let mut i: usize = 0;
    proof {
        lemma_le_bytes_len(n as nat, 16);
        assert(pow256(0) == 1);
    }
    while i < 16
        invariant
            0 <= i <= 16,
            d == (n as nat) / pow256(i as nat),
            out@ == old(out)@ + le_bytes(n as nat, 16).take(i as int),
            le_bytes(n as nat, 16).len() == 16,
        decreases 16 - i,
    {
        proof {
            lemma_le_bytes_step(n as nat, 16, i as nat);
        }
        out.push((d % 256) as u8);
        d = d / 256;
        proof {
            lemma_pow256_pos(i as nat);
            assert((n as nat) / pow256(i as nat) / 256 == (n as nat) / pow256((i + 1) as nat)) by {
                lemma_pow256_pos(i as nat);
                lemma_div_chain(n as nat, pow256(i as nat));
                assert(pow256((i + 1) as nat) == 256 * pow256(i as nat));
            };
        }
        i = i + 1;
    }
    proof {
        assert(le_bytes(n as nat, 16).take(16) =~= le_bytes(n as nat, 16));
    }
}

/// Dividing by `d` then by 256 is dividing by `256 * d`.
proof fn lemma_div_chain(n: nat, d: nat)
    requires
        d > 0,
    ensures
        n / d / 256 == n / (256 * d),
{
    vstd::arithmetic::div_mod::lemma_div_denominator(n as int, d as int, 256);
}

/// Byte `i` of the encoding is byte 0 of the remaining quotient.
proof fn lemma_le_bytes_step(n: nat, count: nat, i: nat)
    requires
        i < count,
    ensures
        le_bytes(n, count)[i as int] == ((n / pow256(i)) % 256) as u8,
        le_bytes(n, count).take(i as int + 1) == le_bytes(n, count).take(i as int).push(
            ((n / pow256(i)) % 256) as u8,
        ),
    decreases i,
{
    lemma_le_bytes_len(n, count);
    if i == 0 {
        assert(le_bytes(n, count)[0] == (n % 256) as u8);
        assert(pow256(0) == 1);
        assert(n / 1 == n) by {
            vstd::arithmetic::div_mod::lemma_div_basics(n as int);
        };
    } else {
        lemma_le_bytes_step(n / 256, (count - 1) as nat, (i - 1) as nat);
        assert(le_bytes(n, count)[i as int] == le_bytes(n / 256, (count - 1) as nat)[i - 1]);
        assert(n / 256 / pow256((i - 1) as nat) == n / pow256(i)) by {
            lemma_pow256_pos((i - 1) as nat);
            vstd::arithmetic::div_mod::lemma_div_denominator(
                n as int,
                256,
                pow256((i - 1) as nat) as int,
            );
            assert(256 * pow256((i - 1) as nat) == pow256(i));
        };
    }
    lemma_le_bytes_len(n, count);
    assert(le_bytes(n, count).take(i as int + 1) =~= le_bytes(n, count).take(i as int).push(
        le_bytes(n, count)[i as int],
    ));
}

/// Builds the id preimage for the given salt, seed and nonce.
pub(crate) fn build_preimage(salt: &[u8], seed: &Vec<u8>, nonce: u128) -> (r: Vec<u8>)
    ensures
        r@ == id_preimage(salt@, seed@, nonce),
{
    let mut out: Vec<u8> = Vec::new();
    let mut i: usize = 0;
    while i < salt.len()
        invariant
            0 <= i <= salt@.len(),
            out@ == salt@.take(i as int),
        decreases salt@.len() - i,
    {
        out.push(salt[i]);
        i = i + 1;
    }
    proof {
        assert(salt@.take(salt@.len() as int) =~= salt@);
    }
    let mut j: usize = 0;
    while j < seed.len()
        invariant
            0 <= j <= seed@.len(),
            out@ == salt@ + seed@.take(j as int),
        decreases seed@.len() - j,
    {
        out.push(seed[j]);
        j = j + 1;
    }
    proof {
        assert(seed@.take(seed@.len() as int) =~= seed@);
        assert(out@ =~= salt@ + seed@);
    }
    push_le_bytes(&mut out, nonce);
    out
}

/// Folds the first 16 bytes of a digest into the id it denotes.
pub(crate) fn fold_digest(digest: &[u8; 32]) -> (r: u128)
    ensures
        r == id_of_digest(digest@),
{
    let mut acc: u128 = 0;
    let mut i: usize = 0;
    while i < 16
        invariant
            0 <= i <= 16,
            acc == be_fold(digest@, i as nat),
            digest@.len() == 32,
        decreases 16 - i,
    {
        proof {
            lemma_be_fold_bound(digest@, i as nat);
            lemma_pow256_bound(i as nat);
        }
        acc = acc * 256 + (digest[i] as u128);
        i = i + 1;
    }
    acc
}

/// `pow256(i) <= pow256(15)` for `i <= 15`, and the fold of 15 bytes fits.
proof fn lemma_pow256_bound(i: nat)
    requires
        i <= 15,
    ensures
        pow256(i) <= pow256(15),
        pow256(15) == 0x1000000000000000000000000000000,
    decreases 15 - i,
{
    reveal_with_fuel(pow256, 16);
    assert(pow256(15) == 0x1000000000000000000000000000000);
    if i < 15 {
        lemma_pow256_bound(i + 1);
        assert(pow256(i + 1) == 256 * pow256(i));
    }
}

/// Derives an id: hashes `salt || seed || nonce-bytes` and folds the digest.
pub fn generate_id(salt: &[u8], seed: &Vec<u8>, nonce: u128) -> (r: u128)
    ensures
        r == spec_generate_id(salt@, seed@, nonce),
{
    let preimage = build_preimage(salt, seed, nonce);
    let digest = blake2_256(&preimage);
    fold_digest(&digest)
}

} // verus!
