//! A proof-of-work solver for CAPTCHA challenges.
//!
//! Given a batch of challenge strings, the solver finds for each the
//! smallest non-negative nonce whose SHA-256 digest of the decimal
//! rendering of the nonce followed by the challenge has at least
//! [`solver::DIFFICULTY`] leading zero bits, and renders the nonces as a
//! JSON array of unsigned integers.

pub mod batch;
pub mod decimal;
pub mod hash;
pub mod json;
pub mod solver;
