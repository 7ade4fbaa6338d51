//! The Chaum–Pedersen primitive: modular exponentiation, the response
//! `s = k - c*x (mod q)`, the joint verification equation, and bounded
//! random generation.
//!
//! The arithmetic contracts are stated over the values of the operands, with
//! `pow` and `%` as the mathematical model; the laws at the end of the module
//! prove the protocol's arithmetic properties, soundness above all: an honest
//! prover's response always passes the joint check.

use vstd::prelude::*;
use vstd::arithmetic::power::{pow, lemma_pow_mod_noop, lemma_pow_adds, lemma_pow_multiplies, lemma1_pow};
use vstd::arithmetic::div_mod::{
    lemma_add_mod_noop, lemma_fundamental_div_mod, lemma_fundamental_div_mod_converse,
    lemma_mod_bound, lemma_mod_multiples_vanish, lemma_mod_twice, lemma_mul_mod_noop_general,
    lemma_small_mod,
};
use vstd::arithmetic::mul::lemma_mul_is_commutative;
use crate::bignum::BigNum;
use crate::bigops::{big_modpow, big_mul, big_rem, big_sub};
use crate::errors::AuthError;
use crate::rng::{rand_below, rand_alphanumeric, spec_alphanumeric};

verus! {

/// The response to challenge `c` under witness `x` and nonce `k`: the
/// representative of `k - c*x (mod q)` that lies in `[0, q)`.
pub open spec fn response_spec(k: nat, c: nat, x: nat, q: nat) -> nat
    recommends
        q > 0,
{
    (((k % q) + q - ((c * x) % q)) % (q as int)) as nat
}

/// One half of the verification: `r == g^s * y^c (mod p)`.
pub open spec fn verify_eq_spec(g: nat, y: nat, r: nat, c: nat, s: nat, p: nat) -> bool {
    r == (pow(g as int, s) * pow(y as int, c)) % (p as int)
}

/// The joint check: both generator equations must hold.
pub open spec fn verify_spec(
    a: nat,
    b: nat,
    p: nat,
    y1: nat,
    y2: nat,
    r1: nat,
    r2: nat,
    c: nat,
    s: nat,
) -> bool {
    verify_eq_spec(a, y1, r1, c, s, p) && verify_eq_spec(b, y2, r2, c, s, p)
}

/// Reducing on the left of an addition does not change the remainder.
proof fn lemma_add_mod_left(x: int, y: int, q: int)
    requires
        q > 0,
    ensures
        ((x % q) + y) % q == (x + y) % q,
{
    lemma_add_mod_noop(x, y, q);
    lemma_add_mod_noop(x % q, y, q);
    lemma_mod_twice(x, q);
}

/// Two representatives in `[0, q)` of the same residue class are equal.
proof fn lemma_unique_mod_rep(s1: int, s2: int, d: int, q: int)
    requires
        q > 0,
        0 <= s1 < q,
        0 <= s2 < q,
        (s1 + d) % q == (s2 + d) % q,
    ensures
        s1 == s2,
{
    let r = (s1 + d) % q;
    let a = (s1 + d) / q;
    let b = (s2 + d) / q;
    lemma_fundamental_div_mod(s1 + d, q);
    lemma_fundamental_div_mod(s2 + d, q);
    assert(s1 == s2) by (nonlinear_arith)
        requires
            q > 0,
            0 <= s1 < q,
            0 <= s2 < q,
            s1 + d == q * a + r,
            s2 + d == q * b + r,
    ;
}

/// The response is reduced: it lies in `[0, q)` for all inputs.
pub proof fn lemma_response_in_range(k: nat, c: nat, x: nat, q: nat)
    ensures
        q > 0 ==> response_spec(k, c, x, q) < q,
{
    if q > 0 {
        lemma_mod_bound((k % q) + q - ((c * x) % q), q as int);
    }
}

/// The response is a representative of `k - c*x`: adding `c*x` back gives
/// `k` again, modulo `q`.
pub proof fn lemma_response_congruent(k: nat, c: nat, x: nat, q: nat)
    requires
        q > 0,
    ensures
        (response_spec(k, c, x, q) + c * x) % q == k % q,
{
    let qi = q as int;
    let cx = (c * x) as int;
    let av = (k % q) as int;
    let bv = ((c * x) % q) as int;
    let d = cx / qi;
    lemma_add_mod_left(av + qi - bv, cx, qi);
    assert((response_spec(k, c, x, q) + c * x) % q == (av + qi - bv + cx) % qi);
    lemma_fundamental_div_mod(cx, qi);
    assert(cx == qi * d + bv);
    assert(av + qi - bv + cx == qi * (1 + d) + av) by (nonlinear_arith)
        requires
            cx == qi * d + bv,
    ;
    lemma_mod_multiples_vanish(1 + d, av, qi);
    lemma_mod_twice(k as int, qi);
}

/// The wrap case: when `k < c*x`, the reduced response equals
/// `q - ((c*x - k) mod q)` unless that remainder is zero, in which case the
/// response is zero.
pub proof fn lemma_response_wrap(k: nat, c: nat, x: nat, q: nat)
    requires
        q > 0,
        k < c * x,
    ensures
        response_spec(k, c, x, q) == if (c * x - k) % (q as int) == 0 {
            0int
        } else {
            q - (c * x - k) % (q as int)
        },
{
    let qi = q as int;
    let cx = (c * x) as int;
    let d = cx - (k as int);
    let m1 = d % qi;
    lemma_mod_bound(d, qi);
    let t: int = if m1 == 0 { 0 } else { qi - m1 };
    lemma_fundamental_div_mod(d, qi);
    assert(d == qi * (d / qi) + m1);
    let e: int = if m1 == 0 { d / qi } else { 1 + d / qi };
    assert(t + d == qi * e) by (nonlinear_arith)
        requires
            d == qi * (d / qi) + m1,
            t == (if m1 == 0 { 0int } else { qi - m1 }),
            e == (if m1 == 0 { d / qi } else { 1 + d / qi }),
    ;
    assert(t + cx == qi * e + k);
    lemma_mod_multiples_vanish(e, k as int, qi);
    assert((t + cx) % qi == (k as int) % qi);
    lemma_response_congruent(k, c, x, q);
    lemma_response_in_range(k, c, x, q);
    lemma_unique_mod_rep(response_spec(k, c, x, q) as int, t, cx, qi);
}

/// A multiple of `q` in the exponent vanishes modulo `p` when `g^q` reduces
/// to one.
proof fn lemma_pow_mod_collapse(g: int, pi: int, q: nat, m: nat, r: nat)
    requires
        pi > 1,
        q > 0,
        pow(g, q) % pi == 1,
    ensures
        pow(g, q * m + r) % pi == pow(g, r) % pi,
{
    lemma_pow_adds(g, q * m, r);
    lemma_pow_multiplies(g, q, m);
    assert(pow(g, q * m + r) == pow(pow(g, q), m) * pow(g, r));
    lemma_pow_mod_noop(pow(g, q), m, pi);
    lemma1_pow(m);
    lemma_small_mod(1, pi as nat);
    assert(pow(pow(g, q), m) % pi == 1);
    lemma_mul_mod_noop_general(pow(pow(g, q), m), pow(g, r), pi);
    assert((pow(pow(g, q), m) * pow(g, r)) % pi == (1 * pow(g, r)) % pi);
}

/// Exponentiating the response plus `c*x` lands back on `g^k`: the exponent
/// is `k` plus a multiple of the order.
proof fn lemma_response_exponent(g: int, pi: int, q: nat, x: nat, k: nat, c: nat)
    requires
        pi > 1,
        q > 0,
        pow(g, q) % pi == 1,
        k < q,
    ensures
        pow(g, (response_spec(k, c, x, q) + c * x) as nat) % pi == pow(g, k) % pi,
{
    let s = response_spec(k, c, x, q);
    let cx = c * x;
    lemma_response_congruent(k, c, x, q);
    lemma_small_mod(k, q);
    assert((s + cx) % q == k);
    lemma_fundamental_div_mod((s + cx) as int, q as int);
    let t = ((s + cx) / q) as nat;
    assert((s + cx) as int == (q as int) * (t as int) + (k as int));
    assert(q * t + k == s + cx);
    lemma_pow_mod_collapse(g, pi, q, t, k);
}

/// Congruent powers stay congruent when the same amount is added to both
/// exponents.
proof fn lemma_pow_mod_extend(g: int, pi: int, s: nat, e1: nat, e2: nat)
    requires
        pi > 1,
        pow(g, e1) % pi == pow(g, e2) % pi,
    ensures
        pow(g, e1 + s) % pi == pow(g, e2 + s) % pi,
{
    lemma_pow_adds(g, e1, s);
    lemma_pow_adds(g, e2, s);
    lemma_mul_mod_noop_general(pow(g, e1), pow(g, s), pi);
    lemma_mul_mod_noop_general(pow(g, e2), pow(g, s), pi);
}

/// Cancellation in the exponent: when `g^q` reduces to one, a shared summand
/// in two congruent exponents can be removed.
proof fn lemma_pow_mod_cancel(g: int, pi: int, q: nat, s: nat, e1: nat, e2: nat)
    requires
        pi > 1,
        q > 0,
        pow(g, q) % pi == 1,
        pow(g, (s + e1) as nat) % pi == pow(g, (s + e2) as nat) % pi,
    ensures
        pow(g, e1) % pi == pow(g, e2) % pi,
{
    // Pad `s` to the next multiple of the order, which then vanishes.
    let pad: nat = if s % q == 0 { 0 } else { (q - s % q) as nat };
    let m: nat = ((s + pad) / q) as nat;
    lemma_fundamental_div_mod(s as int, q as int);
    lemma_mod_bound(s as int, q as int);
    assert(s + pad == q * ((s / q) + if s % q == 0 { 0int } else { 1int })) by (nonlinear_arith)
        requires
            q > 0,
            s as int == (q as int) * ((s as int) / (q as int)) + (s as int) % (q as int),
            0 <= (s as int) % (q as int) < q,
            pad == (if s % q == 0 { 0int } else { (q - s % q) as int }),
    ;
    lemma_fundamental_div_mod_converse(
        (s + pad) as int,
        q as int,
        (s as int) / (q as int) + if s % q == 0 { 0int } else { 1int },
        0,
    );
    assert(q * m == s + pad);
    lemma_pow_mod_extend(g, pi, pad, (s + e1) as nat, (s + e2) as nat);
    assert(pow(g, (s + e1 + pad) as nat) % pi == pow(g, (s + e2 + pad) as nat) % pi);
    assert(s + e1 + pad == q * m + e1);
    assert(s + e2 + pad == q * m + e2);
    lemma_pow_mod_collapse(g, pi, q, m, e1);
    lemma_pow_mod_collapse(g, pi, q, m, e2);
}

/// Soundness for a single generator: when `g` has order dividing `q` modulo
/// `p`, an honest commitment `y = g^x mod p`, announcement `r = g^k mod p`
/// and response `s = k - c*x (mod q)` satisfy `r == g^s * y^c (mod p)`.
proof fn lemma_sound_one(g: nat, p: nat, q: nat, x: nat, k: nat, c: nat)
    requires
        p > 1,
        q > 0,
        pow(g as int, q) % (p as int) == 1,
        k < q,
    ensures
        verify_eq_spec(
            g,
            (pow(g as int, x) % (p as int)) as nat,
            (pow(g as int, k) % (p as int)) as nat,
            c,
            response_spec(k, c, x, q),
            p,
        ),
{
    let gi = g as int;
    let pi = p as int;
    let s = response_spec(k, c, x, q);
    let y = (pow(gi, x) % pi) as nat;
    // Fold the commitment's reduction into the exponentiation.
    lemma_pow_mod_noop(pow(gi, x), c, pi);
    lemma_pow_multiplies(gi, x, c);
    assert(pow(y as int, c) % pi == pow(gi, x * c) % pi);
    lemma_mul_mod_noop_general(pow(gi, s), pow(y as int, c), pi);
    lemma_mul_mod_noop_general(pow(gi, s), pow(gi, x * c), pi);
    assert((pow(gi, s) * pow(y as int, c)) % pi == (pow(gi, s) * pow(gi, x * c)) % pi);
    // The exponents collapse: s + x*c is k plus a multiple of q.
    lemma_pow_adds(gi, s, x * c);
    lemma_mul_is_commutative(x as int, c as int);
    lemma_response_exponent(gi, pi, q, x, k, c);
    assert((pow(gi, s) * pow(y as int, c)) % pi == pow(gi, k) % pi);
}

/// Soundness of the joint check: for all `x, k, c` in `[0, q)`, the honest
/// commitments, announcements and response built from them verify.
pub proof fn lemma_soundness(a: nat, b: nat, p: nat, q: nat, x: nat, k: nat, c: nat)
    requires
        p > 1,
        q > 0,
        pow(a as int, q) % (p as int) == 1,
        pow(b as int, q) % (p as int) == 1,
        x < q,
        k < q,
        c < q,
    ensures
        verify_spec(
            a,
            b,
            p,
            (pow(a as int, x) % (p as int)) as nat,
            (pow(b as int, x) % (p as int)) as nat,
            (pow(a as int, k) % (p as int)) as nat,
            (pow(b as int, k) % (p as int)) as nat,
            c,
            response_spec(k, c, x, q),
        ),
{
    lemma_sound_one(a, p, q, x, k, c);
    lemma_sound_one(b, p, q, x, k, c);
}

/// A stale witness is rejected: a response computed with witness `x` fails
/// against a record re-registered under witness `x2` whenever the challenge
/// separates the two, that is, whenever `a^(c*x)` and `a^(c*x2)` reduce
/// differently modulo `p`. On a degenerate challenge — `c = 0`, or more
/// generally `c*x ≡ c*x2 (mod q)` — the two witnesses are indistinguishable
/// and no check could tell them apart.
pub proof fn lemma_stale_witness_fails(
    a: nat,
    b: nat,
    p: nat,
    q: nat,
    x: nat,
    x2: nat,
    k: nat,
    c: nat,
)
    requires
        p > 1,
        q > 0,
        pow(a as int, q) % (p as int) == 1,
        k < q,
        pow(a as int, c * x) % (p as int) != pow(a as int, c * x2) % (p as int),
    ensures
        !verify_spec(
            a,
            b,
            p,
            (pow(a as int, x2) % (p as int)) as nat,
            (pow(b as int, x2) % (p as int)) as nat,
            (pow(a as int, k) % (p as int)) as nat,
            (pow(b as int, k) % (p as int)) as nat,
            c,
            response_spec(k, c, x, q),
        ),
{
    let gi = a as int;
    let pi = p as int;
    let s = response_spec(k, c, x, q);
    let y2v = (pow(gi, x2) % pi) as nat;
    let rv = (pow(gi, k) % pi) as nat;
    if verify_eq_spec(a, y2v, rv, c, s, p) {
        // The claimed equation folds to a^(s + x2*c) ≡ a^k (mod p).
        lemma_pow_mod_noop(pow(gi, x2), c, pi);
        lemma_pow_multiplies(gi, x2, c);
        lemma_mul_mod_noop_general(pow(gi, s), pow(y2v as int, c), pi);
        lemma_mul_mod_noop_general(pow(gi, s), pow(gi, x2 * c), pi);
        lemma_pow_adds(gi, s, x2 * c);
        assert(pow(gi, (s + x2 * c) as nat) % pi == pow(gi, k) % pi);
        // The honest exponent reduces to the same right-hand side.
        lemma_response_exponent(gi, pi, q, x, k, c);
        lemma_mul_is_commutative(x as int, c as int);
        lemma_mul_is_commutative(x2 as int, c as int);
        assert(pow(gi, (s + c * x) as nat) % pi == pow(gi, (s + c * x2) as nat) % pi);
        // Cancelling the shared response contradicts the separation.
        lemma_pow_mod_cancel(gi, pi, q, s, c * x, c * x2);
        assert(false);
    }
}

/// The joint check is necessary: a response that satisfies the first
/// generator's equation but not the second is rejected.
pub proof fn lemma_joint_check_necessary(
    a: nat,
    b: nat,
    p: nat,
    y1: nat,
    y2: nat,
    r1: nat,
    r2: nat,
    c: nat,
    s: nat,
)
    requires
        verify_eq_spec(a, y1, r1, c, s, p),
        !verify_eq_spec(b, y2, r2, c, s, p),
    ensures
        !verify_spec(a, b, p, y1, y2, r1, r2, c, s),
{
}

/// The Chaum–Pedersen protocol core. An instance holds the group parameters:
/// the two generators `a` and `b`, the prime modulus `p`, and the order `q`
/// of the subgroup the generators span.
pub struct ZKP {
    pub a: BigNum,
    pub b: BigNum,
    pub p: BigNum,
    pub q: BigNum,
}

impl ZKP {
    /// Well-formed group parameters: canonical encodings, a modulus above
    /// one, and a nonzero order.
    pub open spec fn wf(&self) -> bool {
        self.a.wf() && self.b.wf() && self.p.wf() && self.q.wf() && self.p@ > 1 && self.q@ > 0
    }

    /// Build an instance over the given group parameters.
    pub fn init(a: &BigNum, b: &BigNum, p: &BigNum, q: &BigNum) -> (zkp: ZKP)
        ensures
            zkp.a@ == a@ && zkp.b@ == b@ && zkp.p@ == p@ && zkp.q@ == q@,
            zkp.a.wf() == a.wf() && zkp.b.wf() == b.wf() && zkp.p.wf() == p.wf() && zkp.q.wf()
                == q.wf(),
    {
        ZKP { a: a.clone(), b: b.clone(), p: p.clone(), q: q.clone() }
    }

    /// `num^exp mod p`, for arbitrarily large operands.
    pub fn mod_exp(num: &BigNum, exp: &BigNum, p: &BigNum) -> (r: BigNum)
        requires
            p@ > 0,
        ensures
            r.wf(),
            r@ == pow(num@ as int, exp@) % (p@ as int),
            r@ < p@,
    {
        let r = big_modpow(num, exp, p);
        proof {
            lemma_mod_bound(pow(num@ as int, exp@), p@ as int);
        }
        r
    }

    /// The response `s = k - c*x (mod q)`, reduced into `[0, q)`. When
    /// `k < c*x` the difference wraps: `q - ((c*x - k) mod q)`, or zero when
    /// that remainder vanishes.
    pub fn response(&self, k: &BigNum, c: &BigNum, x: &BigNum) -> (s: BigNum)
        requires
            self.q.wf(),
            self.q@ > 0,
            k.wf(),
        ensures
            s.wf(),
            s@ == response_spec(k@, c@, x@, self.q@),
            s@ < self.q@,
    {
        proof {
            lemma_response_in_range(k@, c@, x@, self.q@);
            lemma_response_congruent(k@, c@, x@, self.q@);
        }
        let cx = big_mul(c, x);
        if !k.lt(&cx) {
            let d = big_sub(k, &cx);
            let s = big_rem(&d, &self.q);
            proof {
                let qi = self.q@ as int;
                let cxv = (c@ * x@) as int;
                lemma_mod_bound(d@ as int, qi);
                lemma_add_mod_left(d@ as int, cxv, qi);
                assert((s@ + c@ * x@) % self.q@ == k@ % self.q@);
                lemma_unique_mod_rep(
                    s@ as int,
                    response_spec(k@, c@, x@, self.q@) as int,
                    cxv,
                    qi,
                );
            }
            s
        } else {
            let dd = big_sub(&cx, k);
            let m1 = big_rem(&dd, &self.q);
            proof {
                lemma_response_wrap(k@, c@, x@, self.q@);
                lemma_mod_bound(dd@ as int, self.q@ as int);
            }
            if m1.is_zero() {
                BigNum::zero()
            } else {
                big_sub(&self.q, &m1)
            }
        }
    }

    /// The joint check: accept exactly when `r1 == a^s * y1^c (mod p)` and
    /// `r2 == b^s * y2^c (mod p)`. Both equations are always evaluated.
    pub fn verify(
        &self,
        y1: &BigNum,
        y2: &BigNum,
        r1: &BigNum,
        r2: &BigNum,
        c: &BigNum,
        s: &BigNum,
    ) -> (ok: bool)
        requires
            self.wf(),
            r1.wf(),
            r2.wf(),
        ensures
            ok == verify_spec(self.a@, self.b@, self.p@, y1@, y2@, r1@, r2@, c@, s@),
    {
        let u1 = Self::mod_exp(&self.a, s, &self.p);
        let v1 = Self::mod_exp(y1, c, &self.p);
        let w1 = big_rem(&big_mul(&u1, &v1), &self.p);
        let left = r1.equals(&w1);
        proof {
            lemma_mul_mod_noop_general(pow(self.a@ as int, s@), pow(y1@ as int, c@), self.p@ as int);
        }
        let u2 = Self::mod_exp(&self.b, s, &self.p);
        let v2 = Self::mod_exp(y2, c, &self.p);
        let w2 = big_rem(&big_mul(&u2, &v2), &self.p);
        let right = r2.equals(&w2);
        proof {
            lemma_mul_mod_noop_general(pow(self.b@ as int, s@), pow(y2@ as int, c@), self.p@ as int);
        }
        left && right
    }

    /// A uniformly random value in `[0, max)` from the system's
    /// cryptographically strong generator. A zero bound admits no value
    /// below it and is refused.
    pub fn gen_rand(max: &BigNum) -> (r: Result<BigNum, AuthError>)
        requires
            max.wf(),
        ensures
            r matches Ok(_) <==> max@ > 0,
            r matches Ok(v) ==> v.wf() && v@ < max@,
            r matches Err(e) ==> e == AuthError::InvalidArgument,
    {
        if max.is_zero() {
            Err(AuthError::InvalidArgument)
        } else {
            Ok(rand_below(max))
        }
    }

    /// A random alphanumeric string of the given length, used for the opaque
    /// `auth_id` and `session_id` tokens.
    pub fn gen_rand_string(size: usize) -> (r: String)
        ensures
            r@.len() == size,
            forall|i: int| 0 <= i < r@.len() ==> spec_alphanumeric(r@[i]),
    {
        rand_alphanumeric(size)
    }
}

} // verus!
