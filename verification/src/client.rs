//! The prover: the computations of the client role, one per protocol turn.
//!
//! The witness `x` is derived from the caller's secret bytes by unsigned
//! big-endian decoding. It is recomputed inside each turn and leaves these
//! functions only inside the response `s = k - c*x (mod q)`; the nonce `k`
//! must be drawn freshly for every authentication attempt, since reusing it
//! across two challenges under the same witness leaks the witness.

use vstd::prelude::*;
use vstd::arithmetic::power::pow;
use crate::bignum::{BigNum, be_nat};
use crate::zkp::{ZKP, response_spec};

verus! {

/// The registration payload: the commitments `y1 = a^x mod p` and
/// `y2 = b^x mod p` binding the witness derived from `secret`.
pub fn prover_commitments(zkp: &ZKP, secret: &[u8]) -> (r: (BigNum, BigNum))
    requires
        zkp.wf(),
    ensures
        r.0.wf() && r.1.wf(),
        r.0@ == pow(zkp.a@ as int, be_nat(secret@)) % (zkp.p@ as int),
        r.1@ == pow(zkp.b@ as int, be_nat(secret@)) % (zkp.p@ as int),
        r.0@ < zkp.p@ && r.1@ < zkp.p@,
{
    let x = BigNum::from_bytes(secret);
    let y1 = ZKP::mod_exp(&zkp.a, &x, &zkp.p);
    let y2 = ZKP::mod_exp(&zkp.b, &x, &zkp.p);
    (y1, y2)
}

/// One authentication announcement: a fresh nonce `k` drawn below `q`, and
/// the pair `r1 = a^k mod p`, `r2 = b^k mod p` committing to it.
pub fn prover_announcement(zkp: &ZKP) -> (r: (BigNum, BigNum, BigNum))
    requires
        zkp.wf(),
    ensures
        r.0.wf() && r.1.wf() && r.2.wf(),
        r.0@ < zkp.q@,
        r.1@ == pow(zkp.a@ as int, r.0@) % (zkp.p@ as int),
        r.2@ == pow(zkp.b@ as int, r.0@) % (zkp.p@ as int),
        r.1@ < zkp.p@ && r.2@ < zkp.p@,
{
    let k = match ZKP::gen_rand(&zkp.q) {
        Ok(v) => v,
        // The group is well formed, so its order is nonzero.
        Err(_) => vstd::pervasive::unreached(),
    };
    let r1 = ZKP::mod_exp(&zkp.a, &k, &zkp.p);
    let r2 = ZKP::mod_exp(&zkp.b, &k, &zkp.p);
    (k, r1, r2)
}

/// The response to a received challenge: `s = k - c*x (mod q)`, with the
/// witness rederived from the secret and the challenge decoded from its
/// wire bytes.
pub fn prover_response(zkp: &ZKP, k: &BigNum, c_bytes: &[u8], secret: &[u8]) -> (s: BigNum)
    requires
        zkp.wf(),
        k.wf(),
    ensures
        s.wf(),
        s@ == response_spec(k@, be_nat(c_bytes@), be_nat(secret@), zkp.q@),
        s@ < zkp.q@,
{
    let c = BigNum::from_bytes(c_bytes);
    let x = BigNum::from_bytes(secret);
    zkp.response(k, &c, &x)
}

} // verus!
