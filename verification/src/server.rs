//! The verifier: the registry of users and pending challenges, and the
//! protocol state machine behind the three operations `register`,
//! `create_authentication_challenge` and `verify_authentication`.
//!
//! The observable state is a pair of maps — `name -> (y1, y2)` and
//! `auth_id -> (name, r1, r2, c)` — and every operation's contract says
//! exactly how it moves them and which verdict it returns on which input.
//! A pending challenge is consumed by every verification turn, pass or fail,
//! so a challenge is single-use; re-registering a name replaces its record.

use vstd::prelude::*;
use vstd::string::StrSliceExecFns;
use crate::bignum::{BigNum, be_nat};
use crate::rng::spec_alphanumeric;
use crate::strmap::StrMap;
use crate::zkp::{ZKP, verify_spec};

pub use crate::errors::AuthError;

verus! {

/// The whitespace characters trimmed from the surroundings of a user name.
pub open spec fn is_space_char(c: char) -> bool {
    c == ' ' || c == '\t' || c == '\n' || c == '\r'
}

/// Drop every leading whitespace character.
pub open spec fn drop_leading_spaces(s: Seq<char>) -> Seq<char>
    decreases s.len(),
{
    if s.len() > 0 && is_space_char(s[0]) {
        drop_leading_spaces(s.drop_first())
    } else {
        s
    }
}

/// Drop every trailing whitespace character.
pub open spec fn drop_trailing_spaces(s: Seq<char>) -> Seq<char>
    decreases s.len(),
{
    if s.len() > 0 && is_space_char(s.last()) {
        drop_trailing_spaces(s.drop_last())
    } else {
        s
    }
}

/// A name with its surrounding whitespace removed.
pub open spec fn trim_spec(s: Seq<char>) -> Seq<char> {
    drop_trailing_spaces(drop_leading_spaces(s))
}

/// Skipping a known run of leading spaces does not change the trimmed head.
proof fn lemma_drop_leading_skip(s: Seq<char>, i: int)
    requires
        0 <= i <= s.len(),
        forall|j: int| 0 <= j < i ==> is_space_char(s[j]),
    ensures
        drop_leading_spaces(s) == drop_leading_spaces(s.skip(i)),
    decreases i,
{
    if i > 0 {
        assert(is_space_char(s[0]));
        assert(s.drop_first() =~= s.skip(1));
        lemma_drop_leading_skip(s.skip(1), i - 1);
        assert(s.skip(1).skip(i - 1) =~= s.skip(i));
    } else {
        assert(s.skip(0) =~= s);
    }
}

/// Taking back a known run of trailing spaces does not change the trimmed
/// tail.
proof fn lemma_drop_trailing_take(s: Seq<char>, i: int)
    requires
        0 <= i <= s.len(),
        forall|j: int| i <= j < s.len() ==> is_space_char(s[j]),
    ensures
        drop_trailing_spaces(s) == drop_trailing_spaces(s.take(i)),
    decreases s.len() - i,
{
    if i < s.len() {
        assert(is_space_char(s.last()));
        assert(s.drop_last() =~= s.take(s.len() - 1));
        lemma_drop_trailing_take(s.take(s.len() - 1), i);
        assert(s.take(s.len() - 1).take(i) =~= s.take(i));
    } else {
        assert(s.take(i) =~= s);
    }
}

/// Whether `c` is one of the trimmed whitespace characters.
fn is_space(c: char) -> (r: bool)
    ensures
        r == is_space_char(c),
{
    c == ' ' || c == '\t' || c == '\n' || c == '\r'
}

/// Remove the surrounding whitespace of a name.
pub fn trim_name(s: &String) -> (r: String)
    ensures
        r@ == trim_spec(s@),
{
    let st = s.as_str();
    let n: usize = st.unicode_len();
    let mut lo: usize = 0;
    while lo < n && is_space(st.get_char(lo))
        invariant
            0 <= lo <= n,
            n == s@.len(),
            st@ == s@,
            forall|j: int| 0 <= j < lo ==> is_space_char(s@[j]),
        decreases n - lo,
    {
        lo = lo + 1;
    }
    proof {
        lemma_drop_leading_skip(s@, lo as int);
        if lo < n {
            assert(!is_space_char(s@.skip(lo as int)[0]));
        } else {
            assert(s@.skip(lo as int) =~= Seq::<char>::empty());
        }
        assert(drop_leading_spaces(s@) == s@.skip(lo as int));
    }
    let mut hi: usize = n;
    while hi > lo && is_space(st.get_char(hi - 1))
        invariant
            lo <= hi <= n,
            n == s@.len(),
            st@ == s@,
            forall|j: int| hi <= j < n ==> is_space_char(s@[j]),
        decreases hi,
    {
        hi = hi - 1;
    }
    proof {
        let head = s@.skip(lo as int);
        assert(forall|j: int| hi - lo <= j < head.len() ==> is_space_char(#[trigger] head[j]));
        lemma_drop_trailing_take(head, hi - lo);
        let kept = head.take(hi - lo);
        if hi > lo {
            assert(!is_space_char(s@[hi - 1]));
            assert(kept.last() == s@[hi - 1]);
            assert(drop_trailing_spaces(kept) == kept);
        } else {
            assert(kept =~= Seq::<char>::empty());
            assert(drop_trailing_spaces(kept) == kept);
        }
        assert(kept =~= s@.subrange(lo as int, hi as int));
        assert(trim_spec(s@) == s@.subrange(lo as int, hi as int));
    }
    let out = st.substring_char(lo, hi);
    out.to_owned()
}

/// A registered user: the name and the two public commitments bound to the
/// witness.
pub struct User {
    pub name: String,
    pub y1: BigNum,
    pub y2: BigNum,
}

/// A pending challenge turn: the opaque handle, the user it belongs to, the
/// announcements the prover committed to, and the challenge that was issued.
pub struct PendingChallenge {
    pub auth_id: String,
    pub name: String,
    pub r1: BigNum,
    pub r2: BigNum,
    pub c: BigNum,
}

/// The abstract content of a user record: the values of the commitments.
pub struct UserView {
    pub y1: nat,
    pub y2: nat,
}

/// The abstract content of a pending challenge.
pub struct ChallengeView {
    pub name: Seq<char>,
    pub r1: nat,
    pub r2: nat,
    pub c: nat,
}

/// The verifier. It owns the group parameters and the two registries; all
/// three are observable only through the operations below.
pub struct AuthImpl {
    pub zkp: ZKP,
    pub users: StrMap<User>,
    pub pending: StrMap<PendingChallenge>,
}

impl AuthImpl {
    /// The registered users, as the map of names to commitment values.
    pub closed spec fn users_view(&self) -> Map<Seq<char>, UserView> {
        Map::new(
            |k: Seq<char>| self.users@.contains_key(k),
            |k: Seq<char>| (UserView { y1: self.users@[k].y1@, y2: self.users@[k].y2@ }),
        )
    }

    /// The pending challenges, as the map of handles to challenge contents.
    pub closed spec fn pending_view(&self) -> Map<Seq<char>, ChallengeView> {
        Map::new(
            |k: Seq<char>| self.pending@.contains_key(k),
            |k: Seq<char>| (ChallengeView {
                name: self.pending@[k].name@,
                r1: self.pending@[k].r1@,
                r2: self.pending@[k].r2@,
                c: self.pending@[k].c@,
            }),
        )
    }

    /// The registries are well formed: sound group parameters, distinct
    /// keys, and every stored number canonical and in range — commitments
    /// and announcements below `p`, challenges below `q`.
    pub closed spec fn wf(&self) -> bool {
        &&& self.zkp.wf()
        &&& self.users.wf()
        &&& self.pending.wf()
        &&& forall|k: Seq<char>| #[trigger] self.users@.contains_key(k) ==> {
            &&& self.users@[k].name@ == k
            &&& self.users@[k].y1.wf()
            &&& self.users@[k].y2.wf()
            &&& self.users@[k].y1@ < self.zkp.p@
            &&& self.users@[k].y2@ < self.zkp.p@
        }
        &&& forall|k: Seq<char>| #[trigger] self.pending@.contains_key(k) ==> {
            &&& self.pending@[k].auth_id@ == k
            &&& self.pending@[k].r1.wf()
            &&& self.pending@[k].r2.wf()
            &&& self.pending@[k].c.wf()
            &&& self.pending@[k].r1@ < self.zkp.p@
            &&& self.pending@[k].r2@ < self.zkp.p@
            &&& self.pending@[k].c@ < self.zkp.q@
        }
    }

    /// A verifier over the given group parameters, with empty registries.
    pub fn new(zkp: ZKP) -> (s: AuthImpl)
        ensures
            s.zkp == zkp,
            s.users_view() =~= Map::<Seq<char>, UserView>::empty(),
            s.pending_view() =~= Map::<Seq<char>, ChallengeView>::empty(),
            zkp.wf() ==> s.wf(),
    {
        AuthImpl { zkp, users: StrMap::new(), pending: StrMap::new() }
    }

    /// Register, or re-register, a user: decode the commitments, check they
    /// lie in `[0, p)`, and replace whatever record the name held. The name
    /// is stored as given; a name that is all whitespace is refused.
    pub fn register(&mut self, user: String, y1: Vec<u8>, y2: Vec<u8>) -> (r: Result<
        (),
        AuthError,
    >)
        requires
            old(self).wf(),
        ensures
            final(self).wf(),
            final(self).zkp == old(self).zkp,
            final(self).pending_view() =~= old(self).pending_view(),
            r matches Ok(_) <==> (trim_spec(user@).len() > 0 && be_nat(y1@) < old(self).zkp.p@
                && be_nat(y2@) < old(self).zkp.p@),
            r matches Ok(_) ==> final(self).users_view() =~= old(self).users_view().insert(
                user@,
                (UserView { y1: be_nat(y1@), y2: be_nat(y2@) }),
            ),
            r matches Err(e) ==> e == AuthError::InvalidArgument && final(self).users_view()
                =~= old(self).users_view(),
    {
        let trimmed = trim_name(&user);
        if trimmed.as_str().is_empty() {
            return Err(AuthError::InvalidArgument);
        }
        let y1n = BigNum::from_bytes(y1.as_slice());
        let y2n = BigNum::from_bytes(y2.as_slice());
        if !y1n.lt(&self.zkp.p) || !y2n.lt(&self.zkp.p) {
            return Err(AuthError::InvalidArgument);
        }
        let record = User { name: user.clone(), y1: y1n, y2: y2n };
        self.users.set(user, record);
        proof {
            assert forall|k: Seq<char>| #[trigger] self.users@.contains_key(k) implies {
                &&& self.users@[k].name@ == k
                &&& self.users@[k].y1.wf()
                &&& self.users@[k].y2.wf()
                &&& self.users@[k].y1@ < self.zkp.p@
                &&& self.users@[k].y2@ < self.zkp.p@
            } by {
                if k != user@ {
                    assert(old(self).users@.contains_key(k));
                }
            }
            assert(self.users_view() =~= old(self).users_view().insert(
                user@,
                (UserView { y1: be_nat(y1@), y2: be_nat(y2@) }),
            ));
            assert(self.pending_view() =~= old(self).pending_view());
        }
        Ok(())
    }

    /// Issue a challenge: trim the name, look the user up, check the
    /// announcements lie in `[0, p)`, draw a random challenge `c` in
    /// `[0, q)` and a fresh opaque handle, and record the pending turn under
    /// that handle. The handle is resampled while it collides with a pending
    /// one; if no fresh handle is found after a bounded number of draws, the
    /// generator is considered broken and the turn fails with `Internal`.
    pub fn create_authentication_challenge(
        &mut self,
        user: String,
        r1: Vec<u8>,
        r2: Vec<u8>,
    ) -> (r: Result<(String, Vec<u8>), AuthError>)
        requires
            old(self).wf(),
        ensures
            final(self).wf(),
            final(self).zkp == old(self).zkp,
            final(self).users_view() =~= old(self).users_view(),
            match r {
                Ok(out) => {
                    &&& trim_spec(user@).len() > 0
                    &&& old(self).users_view().contains_key(trim_spec(user@))
                    &&& be_nat(r1@) < old(self).zkp.p@
                    &&& be_nat(r2@) < old(self).zkp.p@
                    &&& out.0@.len() == 12
                    &&& (forall|i: int| 0 <= i < out.0@.len() ==> spec_alphanumeric(out.0@[i]))
                    &&& !old(self).pending_view().contains_key(out.0@)
                    &&& be_nat(out.1@) < old(self).zkp.q@
                    &&& final(self).pending_view() =~= old(self).pending_view().insert(
                        out.0@,
                        (ChallengeView {
                            name: trim_spec(user@),
                            r1: be_nat(r1@),
                            r2: be_nat(r2@),
                            c: be_nat(out.1@),
                        }),
                    )
                },
                Err(e) => {
                    &&& final(self).pending_view() =~= old(self).pending_view()
                    &&& (e == AuthError::NotFound <==> (trim_spec(user@).len() > 0 && !old(
                        self,
                    ).users_view().contains_key(trim_spec(user@))))
                    &&& (e == AuthError::InvalidArgument <==> (trim_spec(user@).len() == 0 || (
                    old(self).users_view().contains_key(trim_spec(user@)) && (be_nat(r1@) >= old(
                        self,
                    ).zkp.p@ || be_nat(r2@) >= old(self).zkp.p@))))
                    &&& (e == AuthError::Internal <==> (trim_spec(user@).len() > 0 && old(
                        self,
                    ).users_view().contains_key(trim_spec(user@)) && be_nat(r1@) < old(self).zkp.p@
                        && be_nat(r2@) < old(self).zkp.p@))
                },
            },
    {
        let name = trim_name(&user);
        if name.as_str().is_empty() {
            return Err(AuthError::InvalidArgument);
        }
        if !self.users.contains_key(&name) {
            return Err(AuthError::NotFound);
        }
        let r1n = BigNum::from_bytes(r1.as_slice());
        let r2n = BigNum::from_bytes(r2.as_slice());
        if !r1n.lt(&self.zkp.p) || !r2n.lt(&self.zkp.p) {
            return Err(AuthError::InvalidArgument);
        }
        let c = match ZKP::gen_rand(&self.zkp.q) {
            Ok(v) => v,
            // Well-formed group parameters have a nonzero order.
            Err(_) => vstd::pervasive::unreached(),
        };
        let c_bytes = c.to_bytes_be();
        let mut tries: usize = 0;
        while tries < 16
            invariant
                old(self).wf(),
                *self == *old(self),
                name@ == trim_spec(user@),
                name@.len() > 0,
                self.users@.contains_key(name@),
                r1n.wf() && r1n@ == be_nat(r1@) && r1n@ < self.zkp.p@,
                r2n.wf() && r2n@ == be_nat(r2@) && r2n@ < self.zkp.p@,
                c.wf() && c@ < self.zkp.q@,
                be_nat(c_bytes@) == c@,
            decreases 16 - tries,
        {
            let auth_id = ZKP::gen_rand_string(12);
            if !self.pending.contains_key(&auth_id) {
                let ch = PendingChallenge {
                    auth_id: auth_id.clone(),
                    name: name.clone(),
                    r1: r1n,
                    r2: r2n,
                    c: c.clone(),
                };
                self.pending.set(auth_id.clone(), ch);
                proof {
                    assert forall|k: Seq<char>| #[trigger] self.pending@.contains_key(k) implies {
                        &&& self.pending@[k].auth_id@ == k
                        &&& self.pending@[k].r1.wf()
                        &&& self.pending@[k].r2.wf()
                        &&& self.pending@[k].c.wf()
                        &&& self.pending@[k].r1@ < self.zkp.p@
                        &&& self.pending@[k].r2@ < self.zkp.p@
                        &&& self.pending@[k].c@ < self.zkp.q@
                    } by {
                        if k != auth_id@ {
                            assert(old(self).pending@.contains_key(k));
                        }
                    }
                    assert(self.pending_view() =~= old(self).pending_view().insert(
                        auth_id@,
                        (ChallengeView {
                            name: trim_spec(user@),
                            r1: be_nat(r1@),
                            r2: be_nat(r2@),
                            c: be_nat(c_bytes@),
                        }),
                    ));
                    assert(self.users_view() =~= old(self).users_view());
                }
                return Ok((auth_id, c_bytes));
            }
            tries = tries + 1;
        }
        Err(AuthError::Internal)
    }

    /// Verify a response: pop the pending challenge — the handle is
    /// single-use, so the turn is consumed whatever the verdict — look up
    /// the user named in it, check the response lies in `[0, q)`, and run
    /// the joint check against the stored record. Success yields a fresh
    /// opaque session handle.
    pub fn verify_authentication(&mut self, auth_id: String, s: Vec<u8>) -> (r: Result<
        String,
        AuthError,
    >)
        requires
            old(self).wf(),
        ensures
            final(self).wf(),
            final(self).zkp == old(self).zkp,
            final(self).users_view() =~= old(self).users_view(),
            final(self).pending_view() =~= old(self).pending_view().remove(auth_id@),
            r matches Ok(_) <==> (old(self).pending_view().contains_key(auth_id@) && old(
                self,
            ).users_view().contains_key(old(self).pending_view()[auth_id@].name) && be_nat(s@)
                < old(self).zkp.q@ && verify_spec(
                old(self).zkp.a@,
                old(self).zkp.b@,
                old(self).zkp.p@,
                old(self).users_view()[old(self).pending_view()[auth_id@].name].y1,
                old(self).users_view()[old(self).pending_view()[auth_id@].name].y2,
                old(self).pending_view()[auth_id@].r1,
                old(self).pending_view()[auth_id@].r2,
                old(self).pending_view()[auth_id@].c,
                be_nat(s@),
            )),
            match r {
                Ok(sid) => {
                    &&& sid@.len() == 12
                    &&& (forall|i: int| 0 <= i < sid@.len() ==> spec_alphanumeric(sid@[i]))
                },
                Err(e) => {
                    &&& (e == AuthError::NotFound <==> (!old(self).pending_view().contains_key(
                        auth_id@,
                    ) || !old(self).users_view().contains_key(
                        old(self).pending_view()[auth_id@].name,
                    )))
                    &&& (e == AuthError::InvalidArgument <==> (old(
                        self,
                    ).pending_view().contains_key(auth_id@) && old(self).users_view().contains_key(
                        old(self).pending_view()[auth_id@].name,
                    ) && be_nat(s@) >= old(self).zkp.q@))
                    &&& (e == AuthError::PermissionDenied <==> (old(
                        self,
                    ).pending_view().contains_key(auth_id@) && old(self).users_view().contains_key(
                        old(self).pending_view()[auth_id@].name,
                    ) && be_nat(s@) < old(self).zkp.q@ && !verify_spec(
                        old(self).zkp.a@,
                        old(self).zkp.b@,
                        old(self).zkp.p@,
                        old(self).users_view()[old(self).pending_view()[auth_id@].name].y1,
                        old(self).users_view()[old(self).pending_view()[auth_id@].name].y2,
                        old(self).pending_view()[auth_id@].r1,
                        old(self).pending_view()[auth_id@].r2,
                        old(self).pending_view()[auth_id@].c,
                        be_nat(s@),
                    )))
                },
            },
    {
        let popped = self.pending.remove(&auth_id);
        proof {
            assert forall|k: Seq<char>| #[trigger] self.pending@.contains_key(k) implies {
                &&& self.pending@[k].auth_id@ == k
                &&& self.pending@[k].r1.wf()
                &&& self.pending@[k].r2.wf()
                &&& self.pending@[k].c.wf()
                &&& self.pending@[k].r1@ < self.zkp.p@
                &&& self.pending@[k].r2@ < self.zkp.p@
                &&& self.pending@[k].c@ < self.zkp.q@
            } by {
                assert(old(self).pending@.contains_key(k));
            }
            assert(self.pending_view() =~= old(self).pending_view().remove(auth_id@));
            assert(self.users_view() =~= old(self).users_view());
        }
        match popped {
            None => Err(AuthError::NotFound),
            Some(ch) => {
                match self.users.get(&ch.name) {
                    None => Err(AuthError::NotFound),
                    Some(u) => {
                        let sn = BigNum::from_bytes(s.as_slice());
                        if !sn.lt(&self.zkp.q) {
                            Err(AuthError::InvalidArgument)
                        } else {
                            let ok = self.zkp.verify(&u.y1, &u.y2, &ch.r1, &ch.r2, &ch.c, &sn);
                            if ok {
                                Ok(ZKP::gen_rand_string(12))
                            } else {
                                Err(AuthError::PermissionDenied)
                            }
                        }
                    },
                }
            },
        }
    }
}

/// A challenge is single-use: a verification turn removes the handle it was
/// called with from the pending map, so this handle can no longer be found,
/// and by `verify_authentication`'s contract a second call with the same
/// handle returns `NotFound`.
pub proof fn lemma_challenge_single_use(
    pre: Map<Seq<char>, ChallengeView>,
    post: Map<Seq<char>, ChallengeView>,
    auth_id: Seq<char>,
)
    requires
        post =~= pre.remove(auth_id),
    ensures
        !post.contains_key(auth_id),
{
}

/// Re-registration replaces: registering a name twice leaves exactly the
/// second record in the user map, so by `verify_authentication`'s contract
/// every later verdict for that name is decided against the second pair of
/// commitments — together with the soundness law, an honest prover of the
/// second witness passes, and a response is judged against nothing else.
pub proof fn lemma_reregistration_replaces(
    m0: Map<Seq<char>, UserView>,
    m1: Map<Seq<char>, UserView>,
    m2: Map<Seq<char>, UserView>,
    user: Seq<char>,
    first: UserView,
    second: UserView,
)
    requires
        m1 =~= m0.insert(user, first),
        m2 =~= m1.insert(user, second),
    ensures
        m2 =~= m0.insert(user, second),
        m2.contains_key(user),
        m2[user] == second,
{
}

} // verus!
