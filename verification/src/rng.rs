//! Trusted bridge to the system's cryptographically strong random generator.
//!
//! Randomness admits no functional contract: the wrappers state only what
//! holds of every outcome — a bound, a length, an alphabet — and the callers
//! are verified for every value the generator may hand back.

use vstd::prelude::*;
use num_bigint::RandBigInt;
use rand::Rng;
use crate::bignum::BigNum;

verus! {

/// Whether a character belongs to the alphanumeric alphabet the opaque
/// session tokens are drawn from.
pub open spec fn spec_alphanumeric(c: char) -> bool {
    ('0' <= c && c <= '9') || ('A' <= c && c <= 'Z') || ('a' <= c && c <= 'z')
}

/// Relies on `num_bigint::RandBigInt::gen_biguint_below` over
/// `rand::thread_rng`: it returns a value strictly below the bound and panics
/// only on a zero bound, which the precondition excludes.
#[verifier::external_body]
pub(crate) fn rand_below(max: &BigNum) -> (r: BigNum)
    requires
        max@ > 0,
    ensures
        r.wf(),
        r@ < max@,
{
    let bound = num_bigint::BigUint::from_bytes_be(&max.bytes);
    let mut rng = rand::thread_rng();
    BigNum { bytes: rng.gen_biguint_below(&bound).to_bytes_be() }
}

/// Relies on rand's `Alphanumeric` distribution over `rand::thread_rng`: its
/// samples are ASCII letters and digits, and taking `n` from the endless
/// sample iterator yields exactly `n` of them.
#[verifier::external_body]
pub(crate) fn rand_alphanumeric(n: usize) -> (r: String)
    ensures
        r@.len() == n,
        forall|i: int| 0 <= i < r@.len() ==> spec_alphanumeric(r@[i]),
{
    rand::thread_rng()
        .sample_iter(rand::distributions::Alphanumeric)
        .take(n)
        .map(char::from)
        .collect()
}

} // verus!
