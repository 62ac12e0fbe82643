use pow_solver::batch::{run_batch, solve_batch, PowError};
use pow_solver::decimal::u64_to_decimal;
use pow_solver::solver::{check_difficulty, solve_bytes, solve_challenge};

use sha2::{Digest, Sha256};

/// Independent recheck of the difficulty predicate: the first 13 bits of
/// the digest are zero.
fn first_13_bits_zero(digest: &[u8]) -> bool {
    digest[0] == 0 && (digest[1] >> 3) == 0
}

/// Independent recheck of one trial: hash the decimal nonce followed by
/// the challenge and test the bit prefix.
fn nonce_satisfies(n: u64, challenge: &str) -> bool {
    let preimage = format!("{}{}", n, challenge);
    let digest = Sha256::digest(preimage.as_bytes());
    first_13_bits_zero(&digest)
}

#[test]
fn solve_abc_satisfies_difficulty_and_is_minimal() {
    let n = solve_challenge("abc").expect("a nonce must exist for \"abc\"");
    assert!(n < 100_000, "nonce for \"abc\" should be small, got {}", n);
    assert!(nonce_satisfies(n, "abc"));
    for m in 0..n {
        assert!(!nonce_satisfies(m, "abc"), "nonce {} was not minimal", n);
    }
}

#[test]
fn solve_empty_challenge() {
    let n = solve_challenge("").expect("a nonce must exist for \"\"");
    assert!(nonce_satisfies(n, ""));
    for m in 0..n {
        assert!(!nonce_satisfies(m, ""));
    }
}

#[test]
fn solve_unicode_challenge_hashes_utf8_bytes() {
    let challenge = "h\u{e9}llo \u{2603}";
    let n = solve_challenge(challenge).expect("a nonce must exist");
    assert!(nonce_satisfies(n, challenge));
    for m in 0..n {
        assert!(!nonce_satisfies(m, challenge));
    }
}

#[test]
fn solve_bytes_agrees_with_solve_challenge() {
    let from_str = solve_challenge("abc");
    let from_bytes = solve_bytes("abc".as_bytes());
    assert_eq!(from_str, from_bytes);
}

#[test]
fn empty_batch_renders_empty_array() {
    assert_eq!(run_batch("[]"), Ok("[]".to_string()));
}

#[test]
fn whitespace_in_input_json_is_accepted() {
    assert_eq!(run_batch(" [ ] "), Ok("[]".to_string()));
}

#[test]
fn batch_with_empty_challenge_renders_its_nonce() {
    let n = solve_challenge("").unwrap();
    assert_eq!(run_batch("[\"\"]"), Ok(format!("[{}]", n)));
}

#[test]
fn single_challenge_renders_one_number() {
    let n = solve_challenge("abc").unwrap();
    assert_eq!(run_batch("[\"abc\"]"), Ok(format!("[{}]", n)));
}

#[test]
fn equal_challenges_yield_equal_nonces() {
    let n = solve_challenge("abc").unwrap();
    assert_eq!(run_batch("[\"abc\",\"abc\"]"), Ok(format!("[{},{}]", n, n)));
}

#[test]
fn permuted_input_permutes_output() {
    let out_xy = run_batch("[\"x\",\"y\"]").unwrap();
    let out_yx = run_batch("[\"y\",\"x\"]").unwrap();
    let nonces_xy: Vec<u64> = serde_json::from_str(&out_xy).unwrap();
    let nonces_yx: Vec<u64> = serde_json::from_str(&out_yx).unwrap();
    assert_eq!(nonces_xy.len(), 2);
    assert_eq!(nonces_yx.len(), 2);
    assert_eq!(nonces_xy[0], nonces_yx[1]);
    assert_eq!(nonces_xy[1], nonces_yx[0]);
}

#[test]
fn repeated_runs_are_identical() {
    let first = run_batch("[\"hello\"]");
    let second = run_batch("[\"hello\"]");
    assert_eq!(first, second);
    assert!(first.is_ok());
}

#[test]
fn batch_output_length_matches_input_length() {
    let out = run_batch("[\"a\",\"b\",\"c\"]").unwrap();
    let nonces: Vec<u64> = serde_json::from_str(&out).unwrap();
    assert_eq!(nonces.len(), 3);
}

#[test]
fn solve_batch_aligns_solutions_with_challenges() {
    let challenges = vec!["a".to_string(), "b".to_string()];
    let nonces = solve_batch(&challenges).expect("nonces must exist");
    assert_eq!(nonces.len(), 2);
    assert!(nonce_satisfies(nonces[0], "a"));
    assert!(nonce_satisfies(nonces[1], "b"));
}

#[test]
fn invalid_json_is_a_decode_error() {
    assert_eq!(run_batch("not json"), Err(PowError::Decode));
}

#[test]
fn json_that_is_not_an_array_is_a_decode_error() {
    assert_eq!(run_batch("{\"a\":1}"), Err(PowError::Decode));
    assert_eq!(run_batch("\"abc\""), Err(PowError::Decode));
}

#[test]
fn array_of_non_strings_is_a_decode_error() {
    assert_eq!(run_batch("[1]"), Err(PowError::Decode));
    assert_eq!(run_batch("[\"a\",2]"), Err(PowError::Decode));
    assert_eq!(run_batch("[[]]"), Err(PowError::Decode));
}

#[test]
fn empty_input_is_a_decode_error() {
    assert_eq!(run_batch(""), Err(PowError::Decode));
}

#[test]
fn decimal_rendering_is_shortest_ascii() {
    assert_eq!(u64_to_decimal(0), b"0".to_vec());
    assert_eq!(u64_to_decimal(7), b"7".to_vec());
    assert_eq!(u64_to_decimal(10), b"10".to_vec());
    assert_eq!(u64_to_decimal(1234567890), b"1234567890".to_vec());
    assert_eq!(u64_to_decimal(u64::MAX), b"18446744073709551615".to_vec());
}

#[test]
fn check_difficulty_accepts_exactly_13_zero_bits() {
    let mut digest = vec![0u8; 32];
    digest[1] = 0x07;
    digest[2] = 0xff;
    assert!(check_difficulty(&digest));
}

#[test]
fn check_difficulty_rejects_a_one_in_the_first_13_bits() {
    let mut thirteenth_bit_set = vec![0u8; 32];
    thirteenth_bit_set[1] = 0x08;
    assert!(!check_difficulty(&thirteenth_bit_set));

    let mut first_bit_set = vec![0u8; 32];
    first_bit_set[0] = 0x80;
    assert!(!check_difficulty(&first_bit_set));

    let mut low_bit_of_first_byte_set = vec![0u8; 32];
    low_bit_of_first_byte_set[0] = 0x01;
    assert!(!check_difficulty(&low_bit_of_first_byte_set));
}

#[test]
fn check_difficulty_accepts_all_zero_digest() {
    let digest = vec![0u8; 32];
    assert!(check_difficulty(&digest));
}
