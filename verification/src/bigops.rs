//! Trusted bridge to the arbitrary-precision arithmetic backend.
//!
//! Each wrapper converts its [`BigNum`] arguments to `num_bigint::BigUint`
//! values (an unsigned big-endian decode), makes one arithmetic call, and
//! converts the result back with `to_bytes_be`, which emits the canonical
//! encoding that [`BigNum::wf`] demands. The contracts state, over the
//! numbers' values, exactly what the backend documents of each call.

use vstd::prelude::*;
use vstd::arithmetic::power::pow;
use crate::bignum::BigNum;

verus! {

/// Relies on `num_bigint::BigUint::modpow`: it returns `base^exp % m` and
/// panics only when the modulus is zero, which the precondition excludes.
#[verifier::external_body]
pub(crate) fn big_modpow(base: &BigNum, exp: &BigNum, m: &BigNum) -> (r: BigNum)
    requires
        m@ > 0,
    ensures
        r.wf(),
        r@ == pow(base@ as int, exp@) % (m@ as int),
{
    let b = num_bigint::BigUint::from_bytes_be(&base.bytes);
    let e = num_bigint::BigUint::from_bytes_be(&exp.bytes);
    let md = num_bigint::BigUint::from_bytes_be(&m.bytes);
    BigNum { bytes: b.modpow(&e, &md).to_bytes_be() }
}

/// Relies on `Mul for &num_bigint::BigUint`: the product of the values.
#[verifier::external_body]
pub(crate) fn big_mul(x: &BigNum, y: &BigNum) -> (r: BigNum)
    ensures
        r.wf(),
        r@ == x@ * y@,
{
    let a = num_bigint::BigUint::from_bytes_be(&x.bytes);
    let b = num_bigint::BigUint::from_bytes_be(&y.bytes);
    BigNum { bytes: (&a * &b).to_bytes_be() }
}

/// Relies on `Rem for &num_bigint::BigUint`: the remainder of the values,
/// panicking only on a zero divisor, which the precondition excludes.
#[verifier::external_body]
pub(crate) fn big_rem(x: &BigNum, m: &BigNum) -> (r: BigNum)
    requires
        m@ > 0,
    ensures
        r.wf(),
        r@ == x@ % m@,
{
    let a = num_bigint::BigUint::from_bytes_be(&x.bytes);
    let md = num_bigint::BigUint::from_bytes_be(&m.bytes);
    BigNum { bytes: (&a % &md).to_bytes_be() }
}

/// Relies on `Sub for &num_bigint::BigUint`: the difference of the values,
/// panicking only on underflow, which the precondition excludes.
#[verifier::external_body]
pub(crate) fn big_sub(x: &BigNum, y: &BigNum) -> (r: BigNum)
    requires
        y@ <= x@,
    ensures
        r.wf(),
        r@ == x@ - y@,
{
    let a = num_bigint::BigUint::from_bytes_be(&x.bytes);
    let b = num_bigint::BigUint::from_bytes_be(&y.bytes);
    BigNum { bytes: (&a - &b).to_bytes_be() }
}

} // verus!
