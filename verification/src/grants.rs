//! The authorization grant store: short-lived, single-use codes.
//!
//! A grant binds a code to the client, redirect URI and scope it was issued
//! for.  Redemption is one atomic step: the single authoritative check of
//! expiry, prior consumption and the two bindings happens inside
//! [`GrantStore::redeem`], which marks the grant consumed in the same call,
//! so a code can never be redeemed twice ([`lemma_redeem_at_most_once`])
//! and an expired code is always refused ([`lemma_expired_code_rejected`]).
//!
//! Codes are 48 hex digits: 32 of random material, 16 of the store serial
//! that makes every issued code unique.

use crate::scope::ScopeSet;
use crate::text::{code_chars, lemma_code_chars_distinct, lemma_pow16_code_widths, render_code,
    serial_coded};
use vstd::prelude::*;

verus! {

/// How long a grant code stays redeemable: ten minutes.
pub const GRANT_TTL_SECONDS: u64 = 600;

/// One authorization grant.
pub struct Grant {
    pub code: String,
    pub client_id: String,
    pub redirect_uri: String,
    pub scope: ScopeSet,
    pub issued_at: u64,
    pub expires_at: u64,
    pub consumed: bool,
}

impl Grant {
    pub open spec fn wf(&self) -> bool {
        self.scope.wf() && self.issued_at <= self.expires_at
    }
}

/// Whether `g` may be redeemed at `now` by `client_id` presenting
/// `redirect_uri`: not yet consumed, not past its expiry, and bound to
/// exactly that client and redirect URI.
pub open spec fn redeemable(g: Grant, client_id: Seq<char>, redirect_uri: Seq<char>, now: u64) -> bool {
    &&& !g.consumed
    &&& now <= g.expires_at
    &&& g.client_id@ == client_id
    &&& g.redirect_uri@ == redirect_uri
}

/// The store of outstanding authorization grants.
pub struct GrantStore {
    pub grants: Vec<Grant>,
    pub next_serial: u64,
}

/// Every grant well formed; every code an opaque string with a serial
/// below `bound`; no code twice.
pub open spec fn grants_wf(s: Seq<Grant>, bound: u64) -> bool {
    &&& forall|i: int| 0 <= i < s.len() ==> (#[trigger] s[i]).wf()
    &&& forall|i: int| 0 <= i < s.len() ==> serial_coded((#[trigger] s[i]).code@, bound)
    &&& forall|i: int, j: int| 0 <= i < j < s.len() ==> s[i].code@ != s[j].code@
}

/// Dropping grants from the end of a store keeps it well formed.
proof fn lemma_grants_wf_drop_last(s: Seq<Grant>, bound: u64)
    requires
        grants_wf(s, bound),
        s.len() > 0,
    ensures
        grants_wf(s.drop_last(), bound),
{
    assert forall|i: int| 0 <= i < s.drop_last().len() implies (#[trigger] s.drop_last()[i]).wf()
        && serial_coded(s.drop_last()[i].code@, bound) by {
        assert(s.drop_last()[i] == s[i]);
        assert(s[i].wf());
        assert(serial_coded(s[i].code@, bound));
    }
    assert forall|i: int, j: int|
        0 <= i < j < s.drop_last().len() implies s.drop_last()[i].code@
        != s.drop_last()[j].code@ by {
        assert(s.drop_last()[i] == s[i] && s.drop_last()[j] == s[j]);
    }
}

/// Every element of a filtered sequence stands somewhere in the original.
pub proof fn lemma_filter_sub<A>(s: Seq<A>, p: spec_fn(A) -> bool, i: int)
    requires
        0 <= i < s.filter(p).len(),
    ensures
        exists|k: int| 0 <= k < s.len() && s[k] == s.filter(p)[i],
    decreases s.len(),
{
    reveal(Seq::filter);
    if s.len() > 0 {
        let f0 = s.drop_last().filter(p);
        if p(s.last()) && i == f0.len() {
            assert(s[s.len() - 1] == s.filter(p)[i]);
        } else {
            lemma_filter_sub(s.drop_last(), p, i);
            let k = choose|k: int| 0 <= k < s.drop_last().len() && s.drop_last()[k] == f0[i];
            assert(s[k] == s.filter(p)[i]);
        }
    }
}

/// Keeping a subsequence of a well-formed grant list keeps it well formed:
/// the codes that stay are still opaque strings under the bound, and still
/// pairwise distinct.
pub proof fn lemma_grants_wf_filter(s: Seq<Grant>, bound: u64, p: spec_fn(Grant) -> bool)
    requires
        grants_wf(s, bound),
    ensures
        grants_wf(s.filter(p), bound),
    decreases s.len(),
{
    reveal(Seq::filter);
    if s.len() > 0 {
        lemma_grants_wf_drop_last(s, bound);
        lemma_grants_wf_filter(s.drop_last(), bound, p);
        let f0 = s.drop_last().filter(p);
        if p(s.last()) {
            let f = f0.push(s.last());
            assert(s.filter(p) == f);
            assert forall|i: int| 0 <= i < f.len() implies (#[trigger] f[i]).wf() && serial_coded(
                f[i].code@,
                bound,
            ) by {
                if i < f0.len() {
                    assert(f[i] == f0[i]);
                    assert(serial_coded(f0[i].code@, bound));
                } else {
                    assert(f[i] == s.last());
                    assert(s[s.len() - 1].wf());
                    assert(serial_coded(s[s.len() - 1].code@, bound));
                }
            }
            assert forall|i: int, j: int| 0 <= i < j < f.len() implies f[i].code@ != f[j].code@ by {
                if j < f0.len() {
                    assert(f0[i].code@ != f0[j].code@);
                } else {
                    assert(f[j] == s.last());
                    lemma_filter_sub(s.drop_last(), p, i);
                    let k = choose|k: int|
                        0 <= k < s.drop_last().len() && s.drop_last()[k] == f0[i];
                    assert(s[k] == f0[i]);
                    assert(s[k].code@ != s[s.len() - 1].code@);
                }
            }
        } else {
            assert(s.filter(p) == f0);
        }
    } else {
        assert(s.filter(p) =~= s);
    }
}

impl GrantStore {
    /// Every grant well formed; every code an opaque string with a serial
    /// below `next_serial`; no code twice.
    pub open spec fn wf(&self) -> bool {
        grants_wf(self.grants@, self.next_serial)
    }

    /// Whether some grant carries the code.
    pub open spec fn has_code(&self, code: Seq<char>) -> bool {
        exists|i: int| 0 <= i < self.grants@.len() && (#[trigger] self.grants@[i]).code@ == code
    }

    /// The index of the grant carrying the code; meaningful when
    /// [`Self::has_code`].
    pub open spec fn grant_index(&self, code: Seq<char>) -> int {
        choose|i: int| 0 <= i < self.grants@.len() && (#[trigger] self.grants@[i]).code@ == code
    }

    /// The grant carrying the code; meaningful when [`Self::has_code`].
    pub open spec fn grant_at(&self, code: Seq<char>) -> Grant {
        self.grants@[self.grant_index(code)]
    }

    /// Whether the store can take one more grant: a serial is left and the
    /// expiry stamp fits the clock's type.
    pub open spec fn can_issue(&self, now: u64, ttl: u64) -> bool {
        self.next_serial < u64::MAX && now + ttl <= u64::MAX
    }

    /// An empty store.
    pub fn new() -> (r: Self)
        ensures
            r.wf(),
            r.grants@ =~= Seq::<Grant>::empty(),
            r.next_serial == 0,
    {
        GrantStore { grants: Vec::new(), next_serial: 0 }
    }

    /// Stores a fresh grant over the given bindings and returns its code:
    /// 32 hex digits of the caller's random draw, then the next serial.
    /// Fails exactly when the store cannot take one more grant.
    pub fn issue_grant(
        &mut self,
        client_id: &str,
        redirect_uri: &str,
        scope: ScopeSet,
        now: u64,
        ttl: u64,
        rand_bits: u128,
    ) -> (r: Option<String>)
        requires
            old(self).wf(),
            scope.wf(),
        ensures
            final(self).wf(),
            (r is Some) == old(self).can_issue(now, ttl),
            r matches Some(code) ==> {
                &&& code@ == code_chars(rand_bits as int, old(self).next_serial as int)
                &&& !old(self).has_code(code@)
                &&& final(self).next_serial == old(self).next_serial + 1
                &&& final(self).grants@.len() == old(self).grants@.len() + 1
                &&& forall|i: int|
                    0 <= i < old(self).grants@.len() ==> final(self).grants@[i] == old(
                        self,
                    ).grants@[i]
                &&& final(self).grants@.last().code@ == code@
                &&& final(self).grants@.last().client_id@ == client_id@
                &&& final(self).grants@.last().redirect_uri@ == redirect_uri@
                &&& final(self).grants@.last().scope == scope
                &&& final(self).grants@.last().issued_at == now
                &&& final(self).grants@.last().expires_at == now + ttl
                &&& !final(self).grants@.last().consumed
            },
            r is None ==> *final(self) == *old(self),
    {
        if self.next_serial == u64::MAX || ttl > u64::MAX - now {
            return None;
        }
        let serial = self.next_serial;
        let code = render_code(rand_bits, serial);
        let grant = Grant {
            code,
            client_id: client_id.to_owned(),
            redirect_uri: redirect_uri.to_owned(),
            scope,
            issued_at: now,
            expires_at: now + ttl,
            consumed: false,
        };
        proof {
            lemma_pow16_code_widths();
            assert forall|i: int| 0 <= i < self.grants@.len() implies self.grants@[i].code@
                != grant.code@ by {
                assert(serial_coded(self.grants@[i].code@, self.next_serial));
                let (r0, c0) = choose|r0: int, c0: int|
                    0 <= c0 < self.next_serial && self.grants@[i].code@ == code_chars(r0, c0);
                lemma_code_chars_distinct(r0, c0, rand_bits as int, serial as int);
            }
        }
        let ghost before = *self;
        self.grants.push(grant);
        self.next_serial = serial + 1;
        proof {
            assert forall|i: int| 0 <= i < self.grants@.len() implies serial_coded(
                (#[trigger] self.grants@[i]).code@,
                self.next_serial,
            ) by {
                if i < self.grants@.len() - 1 {
                    assert(self.grants@[i] == before.grants@[i]);
                    assert(serial_coded(before.grants@[i].code@, before.next_serial));
                    crate::text::lemma_serial_coded_mono(
                        before.grants@[i].code@,
                        before.next_serial,
                        self.next_serial,
                    );
                } else {
                    assert(0 <= serial < self.next_serial && self.grants@[i].code@ == code_chars(
                        rand_bits as int,
                        serial as int,
                    ));
                }
            }
        }
        Some(self.grants[self.grants.len() - 1].code.clone())
    }

    /// Looks a grant up by code without touching it.
    pub fn find_by_code<'a>(&'a self, code: &str) -> (r: Option<&'a Grant>)
        requires
            self.wf(),
        ensures
            (r is Some) == self.has_code(code@),
            r matches Some(g) ==> *g == self.grant_at(code@),
    {
        let n = self.grants.len();
        for i in 0..n
            invariant
                self.wf(),
                n == self.grants.len(),
                forall|j: int| 0 <= j < i ==> (#[trigger] self.grants@[j]).code@ != code@,
        {
            if crate::text::str_eq(self.grants[i].code.as_str(), code) {
                proof {
                    let k = self.grant_index(code@);
                    assert(0 <= k < self.grants@.len() && self.grants@[k].code@ == code@);
                    assert(k == i as int);
                }
                return Some(&self.grants[i]);
            }
        }
        None
    }

    /// Redeems a code in one atomic step: succeeds iff the code is stored
    /// and its grant is [`redeemable`] here and now, and then marks that
    /// grant consumed and hands back its scope.  On failure nothing
    /// changes, and nothing beyond the failure itself is revealed.
    pub fn redeem(&mut self, code: &str, client_id: &str, redirect_uri: &str, now: u64) -> (r:
        Option<ScopeSet>)
        requires
            old(self).wf(),
        ensures
            final(self).wf(),
            final(self).next_serial == old(self).next_serial,
            (r is Some) == (old(self).has_code(code@) && redeemable(
                old(self).grant_at(code@),
                client_id@,
                redirect_uri@,
                now,
            )),
            r matches Some(sc) ==> {
                let i = old(self).grant_index(code@);
                &&& sc.words() == old(self).grants@[i].scope.words()
                &&& sc.wf()
                &&& final(self).grants@ == old(self).grants@.update(
                    i,
                    Grant { consumed: true, ..old(self).grants@[i] },
                )
            },
            r is None ==> *final(self) == *old(self),
    {
        let n = self.grants.len();
        for i in 0..n
            invariant
                old(self).wf(),
                *self == *old(self),
                n == self.grants.len(),
                forall|j: int| 0 <= j < i ==> (#[trigger] self.grants@[j]).code@ != code@,
        {
            if crate::text::str_eq(self.grants[i].code.as_str(), code) {
                proof {
                    let k = self.grant_index(code@);
                    assert(0 <= k < self.grants@.len() && self.grants@[k].code@ == code@);
                    assert(k == i as int);
                }
                let ok = !self.grants[i].consumed && now <= self.grants[i].expires_at
                    && crate::text::str_eq(self.grants[i].client_id.as_str(), client_id)
                    && crate::text::str_eq(self.grants[i].redirect_uri.as_str(), redirect_uri);
                if !ok {
                    return None;
                }
                let mut g = self.grants.remove(i);
                let sc = g.scope.duplicate();
                g.consumed = true;
                self.grants.insert(i, g);
                proof {
                    let upd = old(self).grants@.update(
                        i as int,
                        Grant { consumed: true, ..old(self).grants@[i as int] },
                    );
                    assert(self.grants@ =~= upd);
                    assert forall|a: int| 0 <= a < self.grants@.len() implies serial_coded(
                        (#[trigger] self.grants@[a]).code@,
                        self.next_serial,
                    ) by {
                        assert(serial_coded(old(self).grants@[a].code@, old(self).next_serial));
                        assert(self.grants@[a].code@ == old(self).grants@[a].code@);
                    }
                }
                return Some(sc);
            }
        }
        None
    }
    /// Sweeps out every grant already past its expiry at `now`, keeping
    /// the rest in order.  A sweep may run at any time: it removes only
    /// grants that [`GrantStore::redeem`] would refuse anyway.
    pub fn evict_expired(&mut self, now: u64)
        requires
            old(self).wf(),
        ensures
            final(self).wf(),
            final(self).next_serial == old(self).next_serial,
            final(self).grants@ == old(self).grants@.filter(|g: Grant| now <= g.expires_at),
    {
        let ghost orig = self.grants@;
        let ghost p = |g: Grant| now <= g.expires_at;
        let n = self.grants.len();
        let mut i: usize = 0;
        let mut j: usize = 0;
        while i < n
            invariant
                n == orig.len(),
                orig == old(self).grants@,
                self.next_serial == old(self).next_serial,
                i <= n,
                p == (|g: Grant| now <= g.expires_at),
                self.grants@ == orig.take(i as int).filter(p) + orig.skip(i as int),
                j == orig.take(i as int).filter(p).len(),
            decreases n - i,
        {
            proof {
                assert(self.grants@[j as int] == orig.skip(i as int)[0]);
                assert(orig.skip(i as int)[0] == orig[i as int]);
                assert(orig.take(i as int + 1).drop_last() =~= orig.take(i as int));
                assert(orig.take(i as int + 1).last() == orig[i as int]);
            }
            let keep = now <= self.grants[j].expires_at;
            if keep {
                j += 1;
            } else {
                self.grants.remove(j);
            }
            i += 1;
            proof {
                orig.take(i as int - 1).lemma_filter_push(orig[i as int - 1], p);
                assert(orig.take(i as int) =~= orig.take(i as int - 1).push(orig[i as int - 1]));
                assert(self.grants@ =~= orig.take(i as int).filter(p) + orig.skip(i as int));
            }
        }
        proof {
            assert(orig.take(n as int) =~= orig);
            assert(orig.skip(n as int) =~= Seq::<Grant>::empty());
            assert(self.grants@ =~= orig.filter(p));
            lemma_grants_wf_filter(orig, self.next_serial, p);
        }
    }
}

/// A consumed grant is rejected on every later redemption attempt: once
/// its `consumed` mark is set, no client, redirect URI or clock reading
/// makes it redeemable again.
pub proof fn lemma_consumed_code_rejected(
    s: GrantStore,
    code: Seq<char>,
    client_id: Seq<char>,
    redirect_uri: Seq<char>,
    now: u64,
)
    requires
        s.has_code(code),
        s.grant_at(code).consumed,
    ensures
        !redeemable(s.grant_at(code), client_id, redirect_uri, now),
{
}

/// A grant past its expiry is always rejected, consumed or not.
pub proof fn lemma_expired_code_rejected(
    s: GrantStore,
    code: Seq<char>,
    client_id: Seq<char>,
    redirect_uri: Seq<char>,
    now: u64,
)
    requires
        s.has_code(code),
        now > s.grant_at(code).expires_at,
    ensures
        !redeemable(s.grant_at(code), client_id, redirect_uri, now),
{
}

/// At-most-once redemption: in the store a successful [`GrantStore::redeem`]
/// leaves behind, the very code that was redeemed can no longer be redeemed,
/// whatever client, redirect URI or clock reading the next attempt brings.
pub proof fn lemma_redeem_at_most_once(
    pre: GrantStore,
    post: GrantStore,
    code: Seq<char>,
    client_id: Seq<char>,
    redirect_uri: Seq<char>,
    now: u64,
)
    requires
        pre.wf(),
        pre.has_code(code),
        post.grants@ == pre.grants@.update(
            pre.grant_index(code),
            Grant { consumed: true, ..pre.grants@[pre.grant_index(code)] },
        ),
    ensures
        post.has_code(code),
        !redeemable(post.grant_at(code), client_id, redirect_uri, now),
{
    let i = pre.grant_index(code);
    assert(0 <= i < pre.grants@.len() && pre.grants@[i].code@ == code);
    assert(post.grants@[i].code@ == code);
    let k = post.grant_index(code);
    assert(0 <= k < post.grants@.len() && post.grants@[k].code@ == code);
    if k != i {
        assert(pre.grants@[k].code@ == code);
    }
    assert(post.grant_at(code).consumed);
}

} // verus!
