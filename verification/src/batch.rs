//! The batch driver: decode a JSON array of challenges, solve each in
//! order, and render the nonces as a JSON array.

use vstd::prelude::*;
use vstd::utf8::encode_utf8;
use crate::json::{encode_solutions, json_render, parse_challenges, parsed_challenges};
use crate::solver::{is_minimal_solution, lemma_solution_of_some, solution_of, solve_challenge};

verus! {

/// Why an invocation failed.
#[derive(Clone, Copy, Debug, PartialEq, Eq)]
pub enum PowError {
    /// The input is not a JSON array of strings.
    Decode,
    /// Some challenge has no 64-bit solving nonce.
    Exhausted,
}

/// The answer for one challenge string: the minimal nonce solving its
/// UTF-8 bytes, if any 64-bit nonce does.
pub open spec fn challenge_solution(c: Seq<char>) -> Option<u64> {
    solution_of(encode_utf8(c))
}

/// Every challenge of the batch has an answer.
pub open spec fn all_solved(cs: Seq<Seq<char>>) -> bool {
    forall|i: int| 0 <= i < cs.len() ==> #[trigger] challenge_solution(cs[i]) is Some
}

/// The answers of the batch, positionally aligned with the challenges.
pub open spec fn solutions_for(cs: Seq<Seq<char>>) -> Seq<u64> {
    Seq::new(cs.len(), |i: int| challenge_solution(cs[i])->Some_0)
}

/// Solves the challenges in input order. Returns one nonce per
/// challenge, positionally aligned, or `None` as soon as a challenge
/// has no 64-bit solving nonce.
pub fn solve_batch(challenges: &Vec<String>) -> (r: Option<Vec<u64>>)
    ensures
        r is Some <==> all_solved(challenges.deep_view()),
        r matches Some(out) ==> out@ == solutions_for(challenges.deep_view()),
        r matches Some(out) ==> out@.len() == challenges@.len(),
        r matches Some(out) ==> (forall|i: int|
            0 <= i < out@.len() ==> is_minimal_solution(
                out@[i] as nat,
                encode_utf8(challenges.deep_view()[i]),
            )),
{
    let ghost cs = challenges.deep_view();
    let mut out: Vec<u64> = Vec::new();
    let mut i: usize = 0;
    while i < challenges.len()
        invariant
            cs == challenges.deep_view(),
            cs.len() == challenges@.len(),
            i <= cs.len(),
            out@.len() == i,
            forall|j: int| 0 <= j < i ==> #[trigger] challenge_solution(cs[j]) == Some(out@[j]),
        decreases cs.len() - i,
    {
        let c: &String = &challenges[i];
        proof {
            assert(c@ == cs[i as int]);
        }
        match solve_challenge(c.as_str()) {
            Some(n) => {
                out.push(n);
            },
            None => {
                proof {
                    assert(challenge_solution(cs[i as int]) is None);
                }
                return None;
            },
        }
        i = i + 1;
    }
    proof {
        assert(out@ =~= solutions_for(cs));
        assert forall|j: int| 0 <= j < out@.len() implies is_minimal_solution(
            out@[j] as nat,
            encode_utf8(cs[j]),
        ) by {
            lemma_solution_of_some(encode_utf8(cs[j]), out@[j]);
        }
    }
    Some(out)
}

/// Runs one batch: decodes the input as a JSON array of strings, solves
/// every challenge in order, and renders the nonces as a JSON array.
/// Fails with `Decode` exactly when the input is not a JSON array of
/// strings, and with `Exhausted` when some challenge has no answer.
pub fn run_batch(input: &str) -> (r: Result<String, PowError>)
    ensures
        parsed_challenges(input@) is None <==> r == Err::<String, PowError>(PowError::Decode),
        (parsed_challenges(input@) matches Some(cs) ==> {
            &&& (r is Ok <==> all_solved(cs))
            &&& (r matches Ok(out) ==> out@ == json_render(solutions_for(cs)))
            &&& (!all_solved(cs) ==> r == Err::<String, PowError>(PowError::Exhausted))
            &&& (r is Ok ==> (forall|i: int|
                0 <= i < cs.len() ==> is_minimal_solution(
                    solutions_for(cs)[i] as nat,
                    encode_utf8(cs[i]),
                )))
        }),
{
    let challenges = match parse_challenges(input) {
        Ok(v) => v,
        Err(_) => {
            return Err(PowError::Decode);
        },
    };
    let solutions = match solve_batch(&challenges) {
        Some(s) => s,
        None => {
            return Err(PowError::Exhausted);
        },
    };
    match encode_solutions(&solutions) {
        Ok(s) => Ok(s),
        Err(_) => vstd::pervasive::unreached(),
    }
}

/// Positional alignment: a challenge batch rearranged by any index map
/// has its answers rearranged by the same map, since the answer at a
/// position depends on the challenge at that position alone. A
/// permutation of the input hence permutes the output identically.
pub proof fn lemma_positional_alignment(cs1: Seq<Seq<char>>, cs2: Seq<Seq<char>>, perm: Seq<int>)
    requires
        perm.len() == cs2.len(),
        forall|i: int| 0 <= i < perm.len() ==> 0 <= #[trigger] perm[i] < cs1.len(),
        forall|i: int| 0 <= i < cs2.len() ==> cs2[i] == cs1[#[trigger] perm[i]],
        all_solved(cs1),
    ensures
        all_solved(cs2),
        forall|i: int|
            0 <= i < cs2.len() ==> solutions_for(cs2)[i] == solutions_for(cs1)[#[trigger] perm[i]],
{
    assert forall|i: int| 0 <= i < cs2.len() implies #[trigger] challenge_solution(cs2[i])
        is Some by {
        assert(challenge_solution(cs1[perm[i]]) is Some);
    }
    assert forall|i: int|
        0 <= i < cs2.len() implies solutions_for(cs2)[i] == solutions_for(cs1)[perm[i]] by {
        assert(challenge_solution(cs2[i]) == challenge_solution(cs1[perm[i]]));
    }
}

} // verus!
