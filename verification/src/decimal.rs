//! Decimal (base-10 ASCII) rendering of nonces.
//!
//! A nonce is hashed and emitted as its shortest decimal representation
//! without leading zeros, so both the hash preimage and the JSON output
//! are stated over this rendering.

use vstd::prelude::*;

verus! {

/// The shortest decimal ASCII rendering of `n`: `0` is `"0"`, larger
/// numbers carry no leading zeros.
pub open spec fn decimal_digits(n: nat) -> Seq<u8>
    decreases n,
{
    if n < 10 {
        seq![(48 + n) as u8]
    } else {
        decimal_digits(n / 10).push((48 + n % 10) as u8)
    }
}

/// Renders `n` in decimal ASCII, matching `decimal_digits`.
pub fn u64_to_decimal(n: u64) -> (r: Vec<u8>)
    ensures
        r@ == decimal_digits(n as nat),
    decreases n,
{
    if n < 10 {
        let mut v: Vec<u8> = Vec::new();
        v.push(48 + (n as u8));
        proof {
            assert(v@ =~= decimal_digits(n as nat));
        }
        v
    } else {
        let mut v = u64_to_decimal(n / 10);
        v.push(48 + ((n % 10) as u8));
        proof {
            assert(v@ =~= decimal_digits(n as nat));
        }
        v
    }
}

} // verus!
