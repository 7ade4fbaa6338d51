//! Big unsigned integers as canonical big-endian byte strings.
//!
//! The protocol carries its numbers on the wire as unsigned big-endian byte
//! strings, so the library represents a big integer the same way: a [`BigNum`]
//! owns the canonical encoding of its value, and its view is that value as a
//! `nat`. Decoding, comparison and equality are verified here; the modular
//! arithmetic itself is delegated to an arbitrary-precision backend behind
//! contracts stated over the same view.

use vstd::prelude::*;
use vstd::arithmetic::power::{pow, lemma_pow0, lemma_pow1, lemma_pow_adds, lemma_pow_positive, lemma_pow_increases};
use vstd::arithmetic::mul::{
    lemma_mul_inequality, lemma_mul_is_commutative, lemma_mul_is_distributive_add_other_way,
    lemma_mul_nonnegative,
};

verus! {

/// The unsigned big-endian value of a byte string: the empty string encodes 0,
/// and appending a byte multiplies the value by 256 and adds that byte.
pub open spec fn be_nat(s: Seq<u8>) -> nat
    decreases s.len(),
{
    if s.len() == 0 {
        0
    } else {
        be_nat(s.drop_last()) * 256 + s.last() as nat
    }
}

/// A canonical big-endian encoding: zero is the single byte `0x00`, and any
/// other value starts with a nonzero byte.
pub open spec fn canonical_be(s: Seq<u8>) -> bool {
    s.len() >= 1 && (s.len() == 1 || s[0] != 0)
}

/// The empty byte string encodes zero.
pub proof fn lemma_be_nat_empty()
    ensures
        be_nat(Seq::<u8>::empty()) == 0,
{
    reveal_with_fuel(be_nat, 1);
}

/// A single byte encodes its own value.
pub proof fn lemma_be_nat_singleton(s: Seq<u8>)
    requires
        s.len() == 1,
    ensures
        be_nat(s) == s[0],
{
    reveal_with_fuel(be_nat, 2);
    assert(s.drop_last() =~= Seq::<u8>::empty());
    assert(s.last() == s[0]);
}

/// One step of the power function: multiplying by the base.
proof fn lemma_pow_step(e: nat)
    ensures
        pow(256, e + 1) == 256 * pow(256, e),
{
    lemma_pow_adds(256, 1, e);
    lemma_pow1(256);
}

/// The value of a byte string is below 256 to the power of its length.
pub proof fn lemma_be_nat_bound(s: Seq<u8>)
    ensures
        be_nat(s) < pow(256, s.len()),
    decreases s.len(),
{
    if s.len() == 0 {
        lemma_pow0(256);
    } else {
        lemma_be_nat_bound(s.drop_last());
        lemma_pow_step((s.len() - 1) as nat);
        assert(pow(256, s.len()) == 256 * pow(256, (s.len() - 1) as nat));
        assert(be_nat(s.drop_last()) * 256 + s.last() < pow(256, s.len())) by {
            lemma_pow_positive(256, (s.len() - 1) as nat);
            let p1 = pow(256, (s.len() - 1) as nat);
            assert(be_nat(s.drop_last()) <= p1 - 1);
            lemma_mul_inequality(be_nat(s.drop_last()) as int, p1 - 1, 256);
            lemma_mul_is_commutative(p1 - 1, 256);
            lemma_mul_is_commutative(p1, 256);
            assert((p1 - 1) * 256 == 256 * p1 - 256) by (nonlinear_arith);
        }
    }
}

/// Splitting a byte string at index `i` splits its value: the prefix is
/// shifted left by the length of the suffix.
pub proof fn lemma_be_nat_split(s: Seq<u8>, i: int)
    requires
        0 <= i <= s.len(),
    ensures
        be_nat(s) == be_nat(s.take(i)) * pow(256, (s.len() - i) as nat) + be_nat(s.skip(i)),
    decreases s.len() - i,
{
    if i == s.len() {
        assert(s.take(i) =~= s);
        assert(s.skip(i) =~= Seq::<u8>::empty());
        lemma_pow0(256);
    } else {
        let dl = s.drop_last();
        lemma_be_nat_split(dl, i);
        assert(dl.take(i) =~= s.take(i));
        assert(s.skip(i).drop_last() =~= dl.skip(i));
        assert(s.skip(i).last() == s.last());
        assert(s.skip(i).len() == s.len() - i >= 1);
        assert(be_nat(s.skip(i)) == be_nat(dl.skip(i)) * 256 + s.last());
        let a = be_nat(s.take(i)) as int;
        let b = be_nat(dl.skip(i)) as int;
        let c = s.last() as int;
        let e = (s.len() - 1 - i) as nat;
        lemma_pow_step(e);
        assert(pow(256, (s.len() - i) as nat) == 256 * pow(256, e));
        assert(be_nat(s) == be_nat(dl) * 256 + c);
        assert(be_nat(dl) == a * pow(256, e) + b);
        assert((a * pow(256, e) + b) * 256 + c == a * (256 * pow(256, e)) + (b * 256 + c))
            by (nonlinear_arith);
    }
}

/// The leading byte contributes its value shifted left by the rest.
pub proof fn lemma_be_nat_first(s: Seq<u8>)
    requires
        s.len() >= 1,
    ensures
        be_nat(s) == s[0] * pow(256, (s.len() - 1) as nat) + be_nat(s.skip(1)),
{
    lemma_be_nat_split(s, 1);
    let t = s.take(1);
    lemma_be_nat_singleton(t);
    assert(be_nat(t) == s[0]);
}

/// A run of zero bytes contributes nothing to the value.
pub proof fn lemma_be_nat_leading_zeros(s: Seq<u8>, i: int)
    requires
        0 <= i <= s.len(),
        forall|j: int| 0 <= j < i ==> s[j] == 0,
    ensures
        be_nat(s) == be_nat(s.skip(i)),
{
    lemma_be_nat_split(s, i);
    lemma_be_nat_all_zero(s.take(i));
}

/// A byte string of zero bytes encodes zero.
pub proof fn lemma_be_nat_all_zero(s: Seq<u8>)
    requires
        forall|j: int| 0 <= j < s.len() ==> s[j] == 0,
    ensures
        be_nat(s) == 0,
    decreases s.len(),
{
    if s.len() > 0 {
        lemma_be_nat_all_zero(s.drop_last());
    }
}

/// Of two canonical encodings, the shorter one has the smaller value.
pub proof fn lemma_canonical_shorter_smaller(s: Seq<u8>, t: Seq<u8>)
    requires
        canonical_be(s),
        canonical_be(t),
        s.len() < t.len(),
    ensures
        be_nat(s) < be_nat(t),
{
    lemma_be_nat_bound(s);
    lemma_be_nat_first(t);
    assert(t.len() >= 2);
    assert(t[0] >= 1);
    let e = (t.len() - 1) as nat;
    lemma_pow_positive(256, e);
    lemma_mul_inequality(1, t[0] as int, pow(256, e));
    assert(1 * pow(256, e) == pow(256, e));
    lemma_pow_increases(256, s.len(), e);
    assert(be_nat(s) < pow(256, s.len()) <= pow(256, e) <= t[0] * pow(256, e) <= be_nat(t));
}

/// For same-length strings that agree before index `i` and differ at `i`,
/// the one with the smaller byte at `i` has the smaller value.
pub proof fn lemma_be_nat_lex_lt(s: Seq<u8>, t: Seq<u8>, i: int)
    requires
        s.len() == t.len(),
        0 <= i < s.len(),
        forall|j: int| 0 <= j < i ==> s[j] == t[j],
        s[i] < t[i],
    ensures
        be_nat(s) < be_nat(t),
{
    lemma_be_nat_split(s, i);
    lemma_be_nat_split(t, i);
    assert(s.take(i) =~= t.take(i));
    let e = (s.len() - i) as nat;
    let ss = s.skip(i);
    let ts = t.skip(i);
    assert(ss[0] == s[i] && ts[0] == t[i]);
    lemma_be_nat_first(ss);
    lemma_be_nat_first(ts);
    let e1 = (ss.len() - 1) as nat;
    lemma_be_nat_bound(ss.skip(1));
    lemma_pow_positive(256, e1);
    let p1 = pow(256, e1);
    assert(be_nat(ss) == s[i] * p1 + be_nat(ss.skip(1)));
    assert(be_nat(ts) == t[i] * p1 + be_nat(ts.skip(1)));
    assert(be_nat(ss.skip(1)) < p1);
    assert(s[i] * p1 + p1 == (s[i] + 1) * p1) by {
        lemma_mul_is_distributive_add_other_way(p1, s[i] as int, 1);
        assert(1 * p1 == p1);
    }
    lemma_mul_inequality(s[i] + 1, t[i] as int, p1);
    lemma_mul_nonnegative(t[i] as int, p1);
    assert(be_nat(ss) < (s[i] + 1) * p1 <= t[i] * p1 <= be_nat(ts));
    assert(be_nat(s) == be_nat(s.take(i)) * pow(256, e) + be_nat(ss));
    assert(be_nat(t) == be_nat(s.take(i)) * pow(256, e) + be_nat(ts));
}

/// A big unsigned integer, stored as the canonical big-endian byte string of
/// its value. The view of a `BigNum` is that value as a `nat`.
pub struct BigNum {
    pub(crate) bytes: Vec<u8>,
}

impl View for BigNum {
    type V = nat;

    closed spec fn view(&self) -> nat {
        be_nat(self.bytes@)
    }
}

impl BigNum {
    /// The bytes are the canonical encoding of the value. Every `BigNum` the
    /// library hands out is well formed.
    pub closed spec fn wf(&self) -> bool {
        canonical_be(self.bytes@)
    }

    /// The canonical encoding of the value, as a spec-level byte string.
    pub closed spec fn rep(&self) -> Seq<u8> {
        self.bytes@
    }

    /// The number zero, as its canonical single-byte encoding.
    pub fn zero() -> (r: BigNum)
        ensures
            r.wf(),
            r@ == 0,
    {
        let mut v: Vec<u8> = Vec::new();
        v.push(0);
        proof {
            assert(v@ =~= seq![0u8]);
            lemma_be_nat_singleton(v@);
        }
        BigNum { bytes: v }
    }

    /// Decode an unsigned big-endian byte string, accepting redundant leading
    /// zero bytes and the empty string (which encodes zero).
    pub fn from_bytes(bs: &[u8]) -> (r: BigNum)
        ensures
            r.wf(),
            r@ == be_nat(bs@),
    {
        let n: usize = bs.len();
        let mut i: usize = 0;
        while i < n && bs[i as usize] == 0
            invariant
                0 <= i <= n,
                n == bs@.len(),
                forall|j: int| 0 <= j < i ==> bs@[j] == 0,
            decreases n - i,
        {
            i = i + 1;
        }
        proof {
            lemma_be_nat_leading_zeros(bs@, i as int);
        }
        if i == n {
            let mut v: Vec<u8> = Vec::new();
            v.push(0);
            proof {
                assert(v@ =~= seq![0u8]);
                lemma_be_nat_singleton(v@);
                assert(bs@.skip(i as int) =~= Seq::<u8>::empty());
                lemma_be_nat_empty();
            }
            BigNum { bytes: v }
        } else {
            let rest = vstd::slice::slice_subrange(bs, i, n);
            let v = vstd::slice::slice_to_vec(rest);
            proof {
                assert(rest@ =~= bs@.skip(i as int));
                assert(v@[0] == bs@[i as int] && bs@[i as int] != 0);
            }
            BigNum { bytes: v }
        }
    }

    /// The canonical unsigned big-endian encoding of the value: no leading
    /// zero bytes, except that zero itself is the single byte `0x00`.
    pub fn to_bytes_be(&self) -> (r: Vec<u8>)
        requires
            self.wf(),
        ensures
            canonical_be(r@),
            be_nat(r@) == self@,
            r@ == self.rep(),
    {
        let n: usize = self.bytes.len();
        let mut v: Vec<u8> = Vec::new();
        let mut i: usize = 0;
        while i < n
            invariant
                0 <= i <= n,
                n == self.bytes@.len(),
                v@ =~= self.bytes@.take(i as int),
            decreases n - i,
        {
            v.push(self.bytes[i]);
            i = i + 1;
        }
        proof {
            assert(v@ =~= self.bytes@);
        }
        v
    }

    /// Whether the value is zero.
    pub fn is_zero(&self) -> (r: bool)
        requires
            self.wf(),
        ensures
            r == (self@ == 0),
    {
        let r = self.bytes.len() == 1 && self.bytes[0] == 0;
        proof {
            if r {
                lemma_be_nat_singleton(self.bytes@);
            } else {
                if self.bytes@.len() == 1 {
                    lemma_be_nat_singleton(self.bytes@);
                    assert(be_nat(self.bytes@) == self.bytes@[0]);
                } else {
                    lemma_be_nat_first(self.bytes@);
                    let e = (self.bytes@.len() - 1) as nat;
                    lemma_pow_positive(256, e);
                    lemma_mul_inequality(1, self.bytes@[0] as int, pow(256, e));
                    assert(1 * pow(256, e) == pow(256, e));
                    assert(be_nat(self.bytes@) > 0);
                }
            }
        }
        r
    }

    /// Value equality, decided on the canonical encodings.
    pub fn equals(&self, other: &BigNum) -> (r: bool)
        requires
            self.wf(),
            other.wf(),
        ensures
            r == (self@ == other@),
    {
        let n: usize = self.bytes.len();
        if n != other.bytes.len() {
            proof {
                if self.bytes@.len() < other.bytes@.len() {
                    lemma_canonical_shorter_smaller(self.bytes@, other.bytes@);
                } else {
                    lemma_canonical_shorter_smaller(other.bytes@, self.bytes@);
                }
            }
            return false;
        }
        let mut i: usize = 0;
        while i < n
            invariant
                0 <= i <= n,
                self.wf(),
                other.wf(),
                n == self.bytes@.len() == other.bytes@.len(),
                forall|j: int| 0 <= j < i ==> self.bytes@[j] == other.bytes@[j],
            decreases n - i,
        {
            if self.bytes[i] != other.bytes[i] {
                proof {
                    if self.bytes@[i as int] < other.bytes@[i as int] {
                        lemma_be_nat_lex_lt(self.bytes@, other.bytes@, i as int);
                    } else {
                        lemma_be_nat_lex_lt(other.bytes@, self.bytes@, i as int);
                    }
                }
                return false;
            }
            i = i + 1;
        }
        proof {
            assert(self.bytes@ =~= other.bytes@);
        }
        true
    }

    /// Strict value order, decided on the canonical encodings: a shorter
    /// canonical string is smaller, and equal lengths compare byte-wise.
    pub fn lt(&self, other: &BigNum) -> (r: bool)
        requires
            self.wf(),
            other.wf(),
        ensures
            r == (self@ < other@),
    {
        let n: usize = self.bytes.len();
        if n < other.bytes.len() {
            proof {
                lemma_canonical_shorter_smaller(self.bytes@, other.bytes@);
            }
            return true;
        }
        if n > other.bytes.len() {
            proof {
                lemma_canonical_shorter_smaller(other.bytes@, self.bytes@);
            }
            return false;
        }
        let mut i: usize = 0;
        while i < n
            invariant
                0 <= i <= n,
                self.wf(),
                other.wf(),
                n == self.bytes@.len() == other.bytes@.len(),
                forall|j: int| 0 <= j < i ==> self.bytes@[j] == other.bytes@[j],
            decreases n - i,
        {
            if self.bytes[i] < other.bytes[i] {
                proof {
                    lemma_be_nat_lex_lt(self.bytes@, other.bytes@, i as int);
                }
                return true;
            }
            if self.bytes[i] > other.bytes[i] {
                proof {
                    lemma_be_nat_lex_lt(other.bytes@, self.bytes@, i as int);
                }
                return false;
            }
            i = i + 1;
        }
        proof {
            assert(self.bytes@ =~= other.bytes@);
        }
        false
    }
}

impl Clone for BigNum {
    /// A clone carries the same encoding, hence the same value.
    fn clone(&self) -> (r: Self)
        ensures
            r@ == self@,
            r.wf() == self.wf(),
            r.rep() == self.rep(),
    {
        let n: usize = self.bytes.len();
        let mut v: Vec<u8> = Vec::new();
        let mut i: usize = 0;
        while i < n
            invariant
                0 <= i <= n,
                n == self.bytes@.len(),
                v@ =~= self.bytes@.take(i as int),
            decreases n - i,
        {
            v.push(self.bytes[i]);
            i = i + 1;
        }
        proof {
            assert(v@ =~= self.bytes@);
        }
        BigNum { bytes: v }
    }
}

} // verus!
