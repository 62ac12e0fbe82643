//! The nonce search: for one challenge, the smallest non-negative nonce
//! whose SHA-256 digest of the decimal rendering of the nonce followed
//! by the challenge bytes has at least [`DIFFICULTY`] leading zero bits.

use vstd::prelude::*;
use crate::decimal::{decimal_digits, u64_to_decimal};
use crate::hash::{sha256, sha256_of};

verus! {

/// Required number of leading zero bits in the digest.
pub const DIFFICULTY: u32 = 13;

/// Bit `i` of a byte string is zero, counting bit 0 as the most
/// significant bit of the first byte (big-endian bit order).
pub open spec fn digest_bit_is_zero(digest: Seq<u8>, i: int) -> bool {
    ((digest[i / 8] >> ((7 - (i % 8)) as u8)) & 1u8) == 0u8
}

/// The first `d` bits of the digest are zero.
pub open spec fn meets_difficulty(digest: Seq<u8>, d: nat) -> bool {
    forall|i: int| 0 <= i < d ==> #[trigger] digest_bit_is_zero(digest, i)
}

/// The byte string hashed for nonce `n` and challenge bytes `c`: the
/// decimal ASCII rendering of `n` followed by `c`.
pub open spec fn preimage(n: nat, c: Seq<u8>) -> Seq<u8> {
    decimal_digits(n) + c
}

/// Nonce `n` solves challenge bytes `c`.
pub open spec fn is_solution(n: nat, c: Seq<u8>) -> bool {
    meets_difficulty(sha256_of(preimage(n, c)), DIFFICULTY as nat)
}

/// Nonce `n` solves `c` and no smaller nonce does.
pub open spec fn is_minimal_solution(n: nat, c: Seq<u8>) -> bool {
    &&& is_solution(n, c)
    &&& forall|m: nat| m < n ==> !is_solution(m, c)
}

/// The answer for challenge bytes `c`: the minimal solving nonce, or
/// `None` when no 64-bit nonce solves `c`.
pub open spec fn solution_of(c: Seq<u8>) -> Option<u64> {
    if exists|n: u64| is_minimal_solution(n as nat, c) {
        Some(choose|n: u64| is_minimal_solution(n as nat, c))
    } else {
        None
    }
}

/// At most one nonce is a minimal solution for a given challenge: the
/// ground of the solver's determinism.
pub proof fn lemma_minimal_solution_unique(n1: nat, n2: nat, c: Seq<u8>)
    requires
        is_minimal_solution(n1, c),
        is_minimal_solution(n2, c),
    ensures
        n1 == n2,
{
    if n1 < n2 {
        assert(!is_solution(n1, c));
    } else if n2 < n1 {
        assert(!is_solution(n2, c));
    }
}

/// A minimal solution is the answer `solution_of` picks.
pub proof fn lemma_solution_of_minimal(n: u64, c: Seq<u8>)
    requires
        is_minimal_solution(n as nat, c),
    ensures
        solution_of(c) == Some(n),
{
    let w = choose|m: u64| is_minimal_solution(m as nat, c);
    lemma_minimal_solution_unique(w as nat, n as nat, c);
}

/// When no 64-bit nonce solves `c`, there is no answer.
pub proof fn lemma_solution_of_none(c: Seq<u8>)
    requires
        forall|n: u64| !is_solution(n as nat, c),
    ensures
        solution_of(c) is None,
{
    if exists|n: u64| is_minimal_solution(n as nat, c) {
        let w = choose|n: u64| is_minimal_solution(n as nat, c);
        assert(!is_solution(w as nat, c));
    }
}

/// The answer `solution_of` picks is a minimal solution.
pub proof fn lemma_solution_of_some(c: Seq<u8>, n: u64)
    requires
        solution_of(c) == Some(n),
    ensures
        is_minimal_solution(n as nat, c),
{
    if exists|m: u64| is_minimal_solution(m as nat, c) {
        let w = choose|m: u64| is_minimal_solution(m as nat, c);
        assert(w == n);
    }
}

/// Decides whether the first [`DIFFICULTY`] bits of a 32-byte digest
/// are zero.
pub fn check_difficulty(digest: &Vec<u8>) -> (r: bool)
    requires
        digest@.len() == 32,
    ensures
        r == meets_difficulty(digest@, DIFFICULTY as nat),
{
    let b0: u8 = digest[0];
    let b1: u8 = digest[1];
    let ok: bool = b0 == 0 && (b1 >> 3u8) == 0u8;
    proof {
        if ok {
            assert forall|i: int| 0 <= i < DIFFICULTY implies #[trigger] digest_bit_is_zero(
                digest@,
                i,
            ) by {
                if i < 8 {
                    assert(i / 8 == 0 && i % 8 == i);
                    let s: u8 = (7 - i) as u8;
                    assert(((b0 >> s) & 1u8) == 0u8) by (bit_vector)
                        requires
                            b0 == 0u8,
                            s < 8u8,
                    ;
                } else {
                    assert(i / 8 == 1 && i % 8 == i - 8);
                    let s: u8 = (15 - i) as u8;
                    assert(((b1 >> s) & 1u8) == 0u8) by (bit_vector)
                        requires
                            (b1 >> 3u8) == 0u8,
                            3u8 <= s < 8u8,
                    ;
                }
            }
        } else if meets_difficulty(digest@, DIFFICULTY as nat) {
            assert(digest_bit_is_zero(digest@, 0));
            assert(digest_bit_is_zero(digest@, 1));
            assert(digest_bit_is_zero(digest@, 2));
            assert(digest_bit_is_zero(digest@, 3));
            assert(digest_bit_is_zero(digest@, 4));
            assert(digest_bit_is_zero(digest@, 5));
            assert(digest_bit_is_zero(digest@, 6));
            assert(digest_bit_is_zero(digest@, 7));
            assert(digest_bit_is_zero(digest@, 8));
            assert(digest_bit_is_zero(digest@, 9));
            assert(digest_bit_is_zero(digest@, 10));
            assert(digest_bit_is_zero(digest@, 11));
            assert(digest_bit_is_zero(digest@, 12));
            assert(b0 == 0u8) by (bit_vector)
                requires
                    ((b0 >> 7u8) & 1u8) == 0u8,
                    ((b0 >> 6u8) & 1u8) == 0u8,
                    ((b0 >> 5u8) & 1u8) == 0u8,
                    ((b0 >> 4u8) & 1u8) == 0u8,
                    ((b0 >> 3u8) & 1u8) == 0u8,
                    ((b0 >> 2u8) & 1u8) == 0u8,
                    ((b0 >> 1u8) & 1u8) == 0u8,
                    ((b0 >> 0u8) & 1u8) == 0u8,
            ;
            assert((b1 >> 3u8) == 0u8) by (bit_vector)
                requires
                    ((b1 >> 7u8) & 1u8) == 0u8,
                    ((b1 >> 6u8) & 1u8) == 0u8,
                    ((b1 >> 5u8) & 1u8) == 0u8,
                    ((b1 >> 4u8) & 1u8) == 0u8,
                    ((b1 >> 3u8) & 1u8) == 0u8,
            ;
        }
    }
    ok
}

/// Builds the hash preimage for one trial nonce.
fn build_preimage(n: u64, challenge: &[u8]) -> (r: Vec<u8>)
    ensures
        r@ == preimage(n as nat, challenge@),
{
    let mut v = u64_to_decimal(n);
    proof {
        assert(v@ =~= decimal_digits(n as nat) + challenge@.take(0));
    }
    let mut i: usize = 0;
    while i < challenge.len()
        invariant
            i <= challenge@.len(),
            v@ == decimal_digits(n as nat) + challenge@.take(i as int),
        decreases challenge@.len() - i,
    {
        v.push(challenge[i]);
        i = i + 1;
        proof {
            assert(v@ =~= decimal_digits(n as nat) + challenge@.take(i as int));
        }
    }
    proof {
        assert(challenge@.take(challenge@.len() as int) =~= challenge@);
    }
    v
}

/// Scans nonces upward from zero and returns the first that solves the
/// challenge bytes, or `None` when no 64-bit nonce does.
pub fn solve_bytes(challenge: &[u8]) -> (r: Option<u64>)
    ensures
        r == solution_of(challenge@),
        r matches Some(n) ==> is_minimal_solution(n as nat, challenge@),
        r is None ==> forall|n: u64| !is_solution(n as nat, challenge@),
{
    let mut curr: u64 = 0;
    loop
        invariant
            forall|m: u64| m < curr ==> !is_solution(m as nat, challenge@),
        decreases u64::MAX - curr,
    {
        let pre = build_preimage(curr, challenge);
        let digest = sha256(pre.as_slice());
        if check_difficulty(&digest) {
            proof {
                assert forall|m: nat| m < curr implies !is_solution(m, challenge@) by {
                    assert(!is_solution((m as u64) as nat, challenge@));
                }
                lemma_solution_of_minimal(curr, challenge@);
            }
            return Some(curr);
        }
        if curr == u64::MAX {
            proof {
                lemma_solution_of_none(challenge@);
            }
            return None;
        }
        curr = curr + 1;
    }
}

/// Solves one challenge string: the hashed bytes are the UTF-8 encoding
/// of the string, appended to the decimal rendering of each trial nonce.
pub fn solve_challenge(challenge: &str) -> (r: Option<u64>)
    ensures
        r == solution_of(vstd::utf8::encode_utf8(challenge@)),
        r matches Some(n) ==> is_minimal_solution(n as nat, vstd::utf8::encode_utf8(challenge@)),
{
    let bytes: &[u8] = challenge.as_bytes();
    solve_bytes(bytes)
}

} // verus!
