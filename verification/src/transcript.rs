//! Fiat-Shamir challenges.
//!
//! A challenge is drawn from the bytes of what has been committed to so far: a 64-bit nonce,
//! most significant byte first, is put in front of them, the whole is hashed with SHA-256, and
//! the first sixteen bytes of the digest are read as a number. The nonce counts up from zero
//! until that number is not zero. Prover and verifier both go through [`derive_challenge`], so
//! they cannot disagree.
use crate::field::{radix, Fr};
use digest::Digest;
use sha2::Sha256;
use vstd::prelude::*;

verus! {

/// The SHA-256 digest of `data`.
pub uninterp spec fn sha256(data: Seq<u8>) -> Seq<u8>;

/// The number that bytes stand for, most significant byte first.
pub open spec fn be_value(b: Seq<u8>) -> nat
    decreases b.len(),
{
    if b.len() == 0 {
        0
    } else {
        be_value(b.drop_last()) * 256 + b.last() as nat
    }
}

/// The eight bytes of `n`, most significant first.
pub open spec fn nonce_bytes(n: u64) -> Seq<u8> {
    Seq::new(8, |i: int| ((n >> ((8 * (7 - i)) as u64)) & 0xff) as u8)
}

/// The scalar that a digest yields: its first sixteen bytes as a 128-bit number, most
/// significant byte first. The low 64 bits are the scalar's first limb, the high 64 bits its
/// second.
pub open spec fn digest_scalar(d: Seq<u8>) -> nat {
    be_value(d.subrange(8, 16)) + be_value(d.subrange(0, 8)) * radix()
}

/// What is hashed for the nonce `n`.
pub open spec fn challenge_input(data: Seq<u8>, n: u64) -> Seq<u8> {
    nonce_bytes(n) + data
}

/// The scalar that the nonce `n` yields for `data`.
pub open spec fn candidate(data: Seq<u8>, n: u64) -> nat {
    digest_scalar(sha256(challenge_input(data, n)))
}

/// Whether `n` is the first nonce that yields a scalar other than zero.
pub open spec fn is_challenge_nonce(data: Seq<u8>, n: u64) -> bool {
    candidate(data, n) != 0 && forall|m: u64| m < n ==> candidate(data, m) == 0
}

/// The challenge for `data`: the scalar of the first nonce that yields one other than zero.
/// There is none if all 2^64 nonces yield zero.
pub open spec fn challenge(data: Seq<u8>) -> Option<nat> {
    if exists|n: u64| is_challenge_nonce(data, n) {
        Some(candidate(data, choose|n: u64| is_challenge_nonce(data, n)))
    } else {
        None
    }
}

/// Two to the power 128: every challenge is below it, since it is read from sixteen bytes.
pub open spec fn challenge_bound() -> nat {
    radix() * radix()
}

/// A challenge is never zero.
pub proof fn lemma_challenge_is_not_zero(data: Seq<u8>)
    ensures
        challenge(data) matches Some(h) ==> h != 0,
{
    if exists|n: u64| is_challenge_nonce(data, n) {
        let n = choose|n: u64| is_challenge_nonce(data, n);
        assert(candidate(data, n) != 0);
    }
}

/// Whether each challenge is the inverse of its inverse challenge, which is what the hash
/// gave: not zero, and below 2^128. The challenge itself may be any scalar.
pub open spec fn are_inverses(challenges: Seq<Fr>, challenges_inv: Seq<Fr>) -> bool {
    &&& challenges.len() == challenges_inv.len()
    &&& forall|i: int|
        0 <= i < challenges.len() ==> (#[trigger] challenges_inv[i])@ != 0
            && challenges_inv[i]@ < challenge_bound() && crate::field::is_fr_inverse(
            challenges_inv[i]@,
            challenges[i]@,
        )
}

/// Two to the power `8 * i`, for `i` up to 8.
pub open spec fn byte_radix(i: int) -> nat {
    if i <= 0 {
        1
    } else if i == 1 {
        0x100
    } else if i == 2 {
        0x1_0000
    } else if i == 3 {
        0x100_0000
    } else if i == 4 {
        0x1_0000_0000
    } else if i == 5 {
        0x100_0000_0000
    } else if i == 6 {
        0x1_0000_0000_0000
    } else if i == 7 {
        0x100_0000_0000_0000
    } else {
        0x1_0000_0000_0000_0000
    }
}

/// Reads the eight bytes from `start` on as a number, most significant byte first.
fn read_be_u64(bytes: &[u8], start: usize) -> (r: u64)
    requires
        start + 8 <= bytes.len(),
    ensures
        r == be_value(bytes@.subrange(start as int, start + 8)),
{
    let ghost part = bytes@.subrange(start as int, start + 8);
    let mut acc: u64 = 0;
    let mut i: usize = 0;
    while i < 8
        invariant
            i <= 8,
            start + 8 <= bytes.len(),
            part == bytes@.subrange(start as int, start + 8),
            acc == be_value(part.take(i as int)),
            acc < byte_radix(i as int),
        decreases 8 - i,
    {
        let b = bytes[start + i];
        proof {
            assert(part.take(i + 1).drop_last() =~= part.take(i as int));
            assert(part.take(i + 1).last() == b);
        }
        acc = acc * 256 + b as u64;
        i = i + 1;
    }
    proof {
        assert(part.take(8) =~= part);
    }
    acc
}

/// The scalar that the first sixteen bytes of a digest stand for. It is below 2^128.
pub fn fr_from_u128(bytes: &[u8]) -> (r: Fr)
    requires
        bytes.len() >= 16,
    ensures
        r@ == digest_scalar(bytes@),
        r@ < challenge_bound(),
{
    let upper = read_be_u64(bytes, 0);
    let lower = read_be_u64(bytes, 8);
    Fr::from_u128_parts(lower, upper)
}

/// Appends the eight bytes of `nonce`, most significant first, to `out`.
fn write_nonce(nonce: u64, out: &mut Vec<u8>)
    ensures
        final(out)@ == old(out)@ + nonce_bytes(nonce),
{
    let ghost before = out@;
    let mut i: usize = 0;
    while i < 8
        invariant
            i <= 8,
            out@ == before + nonce_bytes(nonce).take(i as int),
        decreases 8 - i,
    {
        let shift: u64 = 8 * (7 - i as u64);
        let b: u64 = (nonce >> shift) & 0xff;
        assert(b < 256) by (bit_vector)
            requires
                b == (nonce >> shift) & 0xff,
        ;
        out.push(b as u8);
        proof {
            assert(nonce_bytes(nonce).take(i + 1) =~= nonce_bytes(nonce).take(i as int).push(
                nonce_bytes(nonce)[i as int],
            ));
        }
        i = i + 1;
    }
    proof {
        assert(nonce_bytes(nonce).take(8) =~= nonce_bytes(nonce));
    }
}

/// Draws the challenge for `data`. It is never zero, so it has an inverse, and it is below
/// 2^128.
pub fn derive_challenge(data: &Vec<u8>) -> (r: Option<Fr>)
    ensures
        match r {
            Some(c) => challenge(data@) == Some(c@) && c@ != 0 && c@ < challenge_bound(),
            None => challenge(data@).is_none(),
        },
{
    let mut nonce: u64 = 0;
    loop
        invariant
            forall|m: u64| m < nonce ==> candidate(data@, m) == 0,
        decreases u64::MAX - nonce,
    {
        let mut input: Vec<u8> = Vec::new();
        write_nonce(nonce, &mut input);
        input.extend_from_slice(data.as_slice());
        assert(input@ =~= challenge_input(data@, nonce));
        let digest = sha256_raw(&input);
        let c = fr_from_u128(digest.as_slice());
        if !c.is_zero() {
            proof {
                assert(is_challenge_nonce(data@, nonce));
                let n = choose|n: u64| is_challenge_nonce(data@, n);
                assert(n == nonce) by {
                    if n < nonce {
                    } else if nonce < n {
                    }
                }
            }
            return Some(c);
        }
        if nonce == u64::MAX {
            return None;
        }
        nonce = nonce + 1;
    }
}

/// Draws the challenge for `data`, which is below 2^128, and its inverse with it, which may
/// be any scalar.
pub fn derive_challenge_pair(data: &Vec<u8>) -> (r: Option<(Fr, Fr)>)
    ensures
        match r {
            Some((c, c_inv)) => challenge(data@) == Some(c@) && c@ != 0 && c@ < challenge_bound()
                && c_inv@ == crate::field::fr_inverse(c@) && crate::field::is_fr_inverse(
                c@,
                c_inv@,
            ),
            None => challenge(data@).is_none(),
        },
{
    match derive_challenge(data) {
        Some(c) => match c.inverse() {
            Some(c_inv) => Some((c, c_inv)),
            None => None,
        },
        None => None,
    }
}

/// `Digest::digest` of `sha2::Sha256`: the SHA-256 digest of the bytes, which has 32 bytes.
#[verifier::external_body]
fn sha256_raw(data: &Vec<u8>) -> (r: [u8; 32])
    ensures
        r@ == sha256(data@),
{
    Sha256::digest(data).into()
}

} // verus!
