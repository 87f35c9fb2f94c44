//! The token issuer: access and refresh tokens and their store.
//!
//! Issued tokens are opaque strings of the same shape as grant codes: 32
//! hex digits of random material and 16 of a store serial, so every string
//! the issuer ever hands out is unique within its lifetime.  A token is
//! valid until its expiry stamp; [`TokenIssuer::validate`] never returns a
//! token past `expires_at`.  Expiry is enforced lazily, at every lookup.

use crate::scope::ScopeSet;
use crate::text::{code_chars, lemma_code_chars_distinct, lemma_pow16_code_widths, render_code,
    serial_coded};
use vstd::prelude::*;

verus! {

/// How long an access token stays valid: one hour.
pub const TOKEN_TTL_SECONDS: u64 = 3600;

/// One issued access token, with its optional refresh token.
pub struct Token {
    pub access_token: String,
    pub refresh_token: Option<String>,
    pub client_id: String,
    pub scope: ScopeSet,
    pub issued_at: u64,
    pub expires_at: u64,
}

impl Token {
    pub open spec fn wf(&self) -> bool {
        self.scope.wf() && self.issued_at <= self.expires_at
    }

    /// The refresh string, when the token carries one.
    pub open spec fn refresh_chars(&self) -> Seq<char>
        recommends
            self.refresh_token is Some,
    {
        self.refresh_token->0@
    }
}

/// The store of issued tokens.
pub struct TokenIssuer {
    pub tokens: Vec<Token>,
    pub next_serial: u64,
}

/// Every token well formed; every access and refresh string an opaque
/// string with a serial below `bound`; no string twice, neither among
/// access tokens, among refresh tokens, nor across the two.
pub open spec fn tokens_wf(s: Seq<Token>, bound: u64) -> bool {
    &&& forall|i: int| 0 <= i < s.len() ==> (#[trigger] s[i]).wf()
    &&& forall|i: int| 0 <= i < s.len() ==> serial_coded((#[trigger] s[i]).access_token@, bound)
    &&& forall|i: int|
        0 <= i < s.len() && (#[trigger] s[i]).refresh_token is Some ==> serial_coded(
            s[i].refresh_chars(),
            bound,
        )
    &&& forall|i: int, j: int| 0 <= i < j < s.len() ==> s[i].access_token@ != s[j].access_token@
    &&& forall|i: int, j: int|
        0 <= i < s.len() && 0 <= j < s.len() && i != j && (#[trigger] s[i]).refresh_token is Some
            && (#[trigger] s[j]).refresh_token is Some ==> s[i].refresh_chars()
            != s[j].refresh_chars()
    &&& forall|i: int, j: int|
        0 <= i < s.len() && 0 <= j < s.len() && (#[trigger] s[j]).refresh_token is Some ==> (
        #[trigger] s[i]).access_token@ != s[j].refresh_chars()
}

/// Dropping tokens from the end of a store keeps it well formed.
proof fn lemma_tokens_wf_drop_last(s: Seq<Token>, bound: u64)
    requires
        tokens_wf(s, bound),
        s.len() > 0,
    ensures
        tokens_wf(s.drop_last(), bound),
{
    let d = s.drop_last();
    assert forall|i: int| 0 <= i < d.len() implies (#[trigger] d[i]).wf() && serial_coded(
        d[i].access_token@,
        bound,
    ) by {
        assert(d[i] == s[i]);
        assert(s[i].wf());
        assert(serial_coded(s[i].access_token@, bound));
    }
    assert forall|i: int| 0 <= i < d.len() && (#[trigger] d[i]).refresh_token is Some implies
        serial_coded(d[i].refresh_chars(), bound) by {
        assert(d[i] == s[i]);
        assert(serial_coded(s[i].refresh_chars(), bound));
    }
    assert forall|i: int, j: int| 0 <= i < j < d.len() implies d[i].access_token@
        != d[j].access_token@ by {
        assert(d[i] == s[i] && d[j] == s[j]);
    }
    assert forall|i: int, j: int|
        0 <= i < d.len() && 0 <= j < d.len() && i != j && (#[trigger] d[i]).refresh_token is Some
            && (#[trigger] d[j]).refresh_token is Some implies d[i].refresh_chars()
        != d[j].refresh_chars() by {
        assert(d[i] == s[i] && d[j] == s[j]);
    }
    assert forall|i: int, j: int|
        0 <= i < d.len() && 0 <= j < d.len() && (#[trigger] d[j]).refresh_token is Some implies (
    #[trigger] d[i]).access_token@ != d[j].refresh_chars() by {
        assert(d[i] == s[i] && d[j] == s[j]);
    }
}

/// Keeping a subsequence of a well-formed token list keeps it well formed.
pub proof fn lemma_tokens_wf_filter(s: Seq<Token>, bound: u64, p: spec_fn(Token) -> bool)
    requires
        tokens_wf(s, bound),
    ensures
        tokens_wf(s.filter(p), bound),
    decreases s.len(),
{
    reveal(Seq::filter);
    if s.len() == 0 {
        assert(s.filter(p) =~= s);
    } else {
        lemma_tokens_wf_drop_last(s, bound);
        lemma_tokens_wf_filter(s.drop_last(), bound, p);
        let f0 = s.drop_last().filter(p);
        if !p(s.last()) {
            assert(s.filter(p) == f0);
        } else {
            let f = f0.push(s.last());
            assert(s.filter(p) == f);
            let last = s[s.len() - 1];
            assert forall|i: int| 0 <= i < f.len() implies (#[trigger] f[i]).wf() && serial_coded(
                f[i].access_token@,
                bound,
            ) by {
                if i < f0.len() {
                    assert(f[i] == f0[i]);
                    assert(serial_coded(f0[i].access_token@, bound));
                } else {
                    assert(f[i] == last);
                    assert(last.wf());
                    assert(serial_coded(last.access_token@, bound));
                }
            }
            assert forall|i: int| 0 <= i < f.len() && (#[trigger] f[i]).refresh_token
                is Some implies serial_coded(f[i].refresh_chars(), bound) by {
                if i < f0.len() {
                    assert(f[i] == f0[i]);
                    assert(serial_coded(f0[i].refresh_chars(), bound));
                } else {
                    assert(f[i] == last);
                    assert(serial_coded(last.refresh_chars(), bound));
                }
            }
            assert forall|i: int, j: int| 0 <= i < j < f.len() implies f[i].access_token@
                != f[j].access_token@ by {
                if j < f0.len() {
                    assert(f0[i].access_token@ != f0[j].access_token@);
                } else {
                    assert(f[j] == last);
                    crate::grants::lemma_filter_sub(s.drop_last(), p, i);
                    let k = choose|k: int|
                        0 <= k < s.drop_last().len() && s.drop_last()[k] == f0[i];
                    assert(s[k] == f0[i]);
                    assert(s[k].access_token@ != s[s.len() - 1].access_token@);
                }
            }
            assert forall|i: int, j: int|
                0 <= i < f.len() && 0 <= j < f.len() && i != j && (#[trigger] f[i]).refresh_token
                    is Some && (#[trigger] f[j]).refresh_token is Some implies f[i].refresh_chars()
                != f[j].refresh_chars() by {
                if i < f0.len() && j < f0.len() {
                    assert(f0[i].refresh_chars() != f0[j].refresh_chars());
                } else if i < f0.len() {
                    assert(f[j] == last);
                    crate::grants::lemma_filter_sub(s.drop_last(), p, i);
                    let k = choose|k: int|
                        0 <= k < s.drop_last().len() && s.drop_last()[k] == f0[i];
                    assert(s[k] == f0[i]);
                    assert(s[k].refresh_chars() != s[s.len() - 1].refresh_chars());
                } else {
                    assert(f[i] == last);
                    crate::grants::lemma_filter_sub(s.drop_last(), p, j);
                    let k = choose|k: int|
                        0 <= k < s.drop_last().len() && s.drop_last()[k] == f0[j];
                    assert(s[k] == f0[j]);
                    assert(s[s.len() - 1].refresh_chars() != s[k].refresh_chars());
                }
            }
            assert forall|i: int, j: int|
                0 <= i < f.len() && 0 <= j < f.len() && (#[trigger] f[j]).refresh_token
                    is Some implies (#[trigger] f[i]).access_token@ != f[j].refresh_chars() by {
                if i < f0.len() && j < f0.len() {
                    assert(f0[i].access_token@ != f0[j].refresh_chars());
                } else if i < f0.len() {
                    assert(f[j] == last);
                    crate::grants::lemma_filter_sub(s.drop_last(), p, i);
                    let k = choose|k: int|
                        0 <= k < s.drop_last().len() && s.drop_last()[k] == f0[i];
                    assert(s[k] == f0[i]);
                    assert(s[k].access_token@ != s[s.len() - 1].refresh_chars());
                } else if j < f0.len() {
                    assert(f[i] == last);
                    crate::grants::lemma_filter_sub(s.drop_last(), p, j);
                    let k = choose|k: int|
                        0 <= k < s.drop_last().len() && s.drop_last()[k] == f0[j];
                    assert(s[k] == f0[j]);
                    assert(s[s.len() - 1].access_token@ != s[k].refresh_chars());
                } else {
                    assert(f[i] == last && f[j] == last);
                    assert(s[s.len() - 1].access_token@ != s[s.len() - 1].refresh_chars());
                }
            }
        }
    }
}

impl TokenIssuer {
    /// Every token well formed; every access and refresh string an opaque
    /// string with a serial below `next_serial`; no string twice, neither
    /// among access tokens, among refresh tokens, nor across the two.
    pub open spec fn wf(&self) -> bool {
        tokens_wf(self.tokens@, self.next_serial)
    }

    /// Whether some token carries the access string.
    pub open spec fn has_access(&self, access: Seq<char>) -> bool {
        exists|i: int|
            0 <= i < self.tokens@.len() && (#[trigger] self.tokens@[i]).access_token@ == access
    }

    /// The index of the token carrying the access string.
    pub open spec fn access_index(&self, access: Seq<char>) -> int {
        choose|i: int|
            0 <= i < self.tokens@.len() && (#[trigger] self.tokens@[i]).access_token@ == access
    }

    /// The token carrying the access string; meaningful when
    /// [`Self::has_access`].
    pub open spec fn token_at(&self, access: Seq<char>) -> Token {
        self.tokens@[self.access_index(access)]
    }

    /// Whether some token carries the refresh string.
    pub open spec fn has_refresh(&self, refresh: Seq<char>) -> bool {
        exists|i: int|
            0 <= i < self.tokens@.len() && (#[trigger] self.tokens@[i]).refresh_token is Some
                && self.tokens@[i].refresh_chars() == refresh
    }

    /// The index of the token carrying the refresh string.
    pub open spec fn refresh_index(&self, refresh: Seq<char>) -> int {
        choose|i: int|
            0 <= i < self.tokens@.len() && (#[trigger] self.tokens@[i]).refresh_token is Some
                && self.tokens@[i].refresh_chars() == refresh
    }

    /// The token carrying the refresh string; meaningful when
    /// [`Self::has_refresh`].
    pub open spec fn token_by_refresh(&self, refresh: Seq<char>) -> Token {
        self.tokens@[self.refresh_index(refresh)]
    }

    /// Whether the issuer can take one more token: two serials are left
    /// (access and refresh) and the expiry stamp fits the clock's type.
    pub open spec fn can_issue(&self, now: u64, ttl: u64) -> bool {
        self.next_serial < u64::MAX - 1 && now + ttl <= u64::MAX
    }

    /// An empty issuer.
    pub fn new() -> (r: Self)
        ensures
            r.wf(),
            r.tokens@ =~= Seq::<Token>::empty(),
            r.next_serial == 0,
    {
        TokenIssuer { tokens: Vec::new(), next_serial: 0 }
    }

    /// Issues and stores a fresh token pair for the client and scope: the
    /// access string uses the next serial, the refresh string the one after.
    /// Fails exactly when the issuer cannot take one more token.
    pub fn issue(
        &mut self,
        client_id: &str,
        scope: ScopeSet,
        now: u64,
        ttl: u64,
        rand_access: u128,
        rand_refresh: u128,
    ) -> (r: Option<(String, String)>)
        requires
            old(self).wf(),
            scope.wf(),
        ensures
            final(self).wf(),
            (r is Some) == old(self).can_issue(now, ttl),
            r matches Some((access, refresh)) ==> {
                &&& access@ == code_chars(rand_access as int, old(self).next_serial as int)
                &&& refresh@ == code_chars(rand_refresh as int, old(self).next_serial + 1 as int)
                &&& !old(self).has_access(access@)
                &&& !old(self).has_refresh(refresh@)
                &&& final(self).next_serial == old(self).next_serial + 2
                &&& final(self).tokens@.len() == old(self).tokens@.len() + 1
                &&& forall|i: int|
                    0 <= i < old(self).tokens@.len() ==> final(self).tokens@[i] == old(
                        self,
                    ).tokens@[i]
                &&& final(self).tokens@.last().access_token@ == access@
                &&& final(self).tokens@.last().refresh_token matches Some(rf) && rf@ == refresh@
                &&& final(self).tokens@.last().client_id@ == client_id@
                &&& final(self).tokens@.last().scope == scope
                &&& final(self).tokens@.last().issued_at == now
                &&& final(self).tokens@.last().expires_at == now + ttl
            },
            r is None ==> *final(self) == *old(self),
    {
        if self.next_serial >= u64::MAX - 1 || ttl > u64::MAX - now {
            return None;
        }
        let serial = self.next_serial;
        let access = render_code(rand_access, serial);
        let refresh = render_code(rand_refresh, serial + 1);
        let token = Token {
            access_token: access.clone(),
            refresh_token: Some(refresh.clone()),
            client_id: client_id.to_owned(),
            scope,
            issued_at: now,
            expires_at: now + ttl,
        };
        proof {
            lemma_pow16_code_widths();
            assert forall|i: int| 0 <= i < self.tokens@.len() implies self.tokens@[i].access_token@
                != access@ && self.tokens@[i].access_token@ != refresh@ by {
                assert(serial_coded(self.tokens@[i].access_token@, self.next_serial));
                let (r0, c0) = choose|r0: int, c0: int|
                    0 <= c0 < self.next_serial && self.tokens@[i].access_token@ == code_chars(
                        r0,
                        c0,
                    );
                lemma_code_chars_distinct(r0, c0, rand_access as int, serial as int);
                lemma_code_chars_distinct(r0, c0, rand_refresh as int, serial + 1 as int);
            }
            assert forall|i: int|
                0 <= i < self.tokens@.len() && (#[trigger] self.tokens@[i]).refresh_token
                    is Some implies self.tokens@[i].refresh_chars() != access@
                && self.tokens@[i].refresh_chars() != refresh@ by {
                assert(serial_coded(self.tokens@[i].refresh_chars(), self.next_serial));
                let (r0, c0) = choose|r0: int, c0: int|
                    0 <= c0 < self.next_serial && self.tokens@[i].refresh_chars() == code_chars(
                        r0,
                        c0,
                    );
                lemma_code_chars_distinct(r0, c0, rand_access as int, serial as int);
                lemma_code_chars_distinct(r0, c0, rand_refresh as int, serial + 1 as int);
            }
            lemma_code_chars_distinct(
                rand_access as int,
                serial as int,
                rand_refresh as int,
                serial + 1 as int,
            );
        }
        let ghost before = *self;
        self.tokens.push(token);
        self.next_serial = serial + 2;
        proof {
            let m = self.tokens@.len() - 1;
            assert forall|i: int| 0 <= i < self.tokens@.len() implies serial_coded(
                (#[trigger] self.tokens@[i]).access_token@,
                self.next_serial,
            ) by {
                if i < m {
                    assert(self.tokens@[i] == before.tokens@[i]);
                    assert(serial_coded(before.tokens@[i].access_token@, before.next_serial));
                    crate::text::lemma_serial_coded_mono(
                        before.tokens@[i].access_token@,
                        before.next_serial,
                        self.next_serial,
                    );
                } else {
                    assert(0 <= serial < self.next_serial && self.tokens@[i].access_token@
                        == code_chars(rand_access as int, serial as int));
                }
            }
            assert forall|i: int|
                0 <= i < self.tokens@.len() && (#[trigger] self.tokens@[i]).refresh_token
                    is Some implies serial_coded(
                self.tokens@[i].refresh_chars(),
                self.next_serial,
            ) by {
                if i < m {
                    assert(self.tokens@[i] == before.tokens@[i]);
                    assert(serial_coded(before.tokens@[i].refresh_chars(), before.next_serial));
                    crate::text::lemma_serial_coded_mono(
                        before.tokens@[i].refresh_chars(),
                        before.next_serial,
                        self.next_serial,
                    );
                } else {
                    assert(0 <= serial + 1 < self.next_serial && self.tokens@[i].refresh_chars()
                        == code_chars(rand_refresh as int, serial + 1 as int));
                }
            }
        }
        Some((access, refresh))
    }

    /// Looks an access token up: `Some` iff the string is stored and not
    /// past its expiry at `now`.  A token past `expires_at` is never
    /// returned as valid.
    pub fn validate<'a>(&'a self, access: &str, now: u64) -> (r: Option<&'a Token>)
        requires
            self.wf(),
        ensures
            (r is Some) == (self.has_access(access@) && now <= self.token_at(access@).expires_at),
            r matches Some(t) ==> *t == self.token_at(access@),
    {
        let n = self.tokens.len();
        for i in 0..n
            invariant
                self.wf(),
                n == self.tokens.len(),
                forall|j: int| 0 <= j < i ==> (#[trigger] self.tokens@[j]).access_token@ != access@,
        {
            if crate::text::str_eq(self.tokens[i].access_token.as_str(), access) {
                proof {
                    let k = self.access_index(access@);
                    assert(0 <= k < self.tokens@.len() && self.tokens@[k].access_token@ == access@);
                    assert(k == i as int);
                }
                if now <= self.tokens[i].expires_at {
                    return Some(&self.tokens[i]);
                } else {
                    return None;
                }
            }
        }
        None
    }

    /// Looks a token up by its refresh string, with no expiry check: a
    /// refresh exchange is refused only for an unknown string or a client
    /// mismatch, which the flow checks.
    pub fn find_refresh<'a>(&'a self, refresh: &str) -> (r: Option<&'a Token>)
        requires
            self.wf(),
        ensures
            (r is Some) == self.has_refresh(refresh@),
            r matches Some(t) ==> *t == self.token_by_refresh(refresh@),
    {
        let n = self.tokens.len();
        for i in 0..n
            invariant
                self.wf(),
                n == self.tokens.len(),
                forall|j: int|
                    0 <= j < i ==> !((#[trigger] self.tokens@[j]).refresh_token is Some
                        && self.tokens@[j].refresh_chars() == refresh@),
        {
            let hit = match &self.tokens[i].refresh_token {
                Some(rf) => crate::text::str_eq(rf.as_str(), refresh),
                None => false,
            };
            if hit {
                proof {
                    let k = self.refresh_index(refresh@);
                    assert(0 <= k < self.tokens@.len() && self.tokens@[k].refresh_token is Some
                        && self.tokens@[k].refresh_chars() == refresh@);
                    assert(k == i as int);
                }
                return Some(&self.tokens[i]);
            }
        }
        None
    }

    /// Removes the token carrying the access string, if stored.
    pub fn revoke(&mut self, access: &str) -> (r: bool)
        requires
            old(self).wf(),
        ensures
            final(self).wf(),
            final(self).next_serial == old(self).next_serial,
            r == old(self).has_access(access@),
            r ==> final(self).tokens@ == old(self).tokens@.remove(
                old(self).access_index(access@),
            ),
            !r ==> *final(self) == *old(self),
    {
        let n = self.tokens.len();
        for i in 0..n
            invariant
                old(self).wf(),
                *self == *old(self),
                n == self.tokens.len(),
                forall|j: int| 0 <= j < i ==> (#[trigger] self.tokens@[j]).access_token@ != access@,
        {
            if crate::text::str_eq(self.tokens[i].access_token.as_str(), access) {
                proof {
                    let k = self.access_index(access@);
                    assert(0 <= k < self.tokens@.len() && self.tokens@[k].access_token@ == access@);
                    assert(k == i as int);
                }
                self.tokens.remove(i);
                return true;
            }
        }
        false
    }

    /// Sweeps out every token already past its expiry at `now`, keeping
    /// the rest in order.  A sweep may run at any time: it removes only
    /// tokens that [`TokenIssuer::validate`] would refuse anyway.
    pub fn evict_expired(&mut self, now: u64)
        requires
            old(self).wf(),
        ensures
            final(self).wf(),
            final(self).next_serial == old(self).next_serial,
            final(self).tokens@ == old(self).tokens@.filter(|t: Token| now <= t.expires_at),
    {
        let ghost orig = self.tokens@;
        let ghost p = |t: Token| now <= t.expires_at;
        let n = self.tokens.len();
        let mut i: usize = 0;
        let mut j: usize = 0;
        while i < n
            invariant
                n == orig.len(),
                orig == old(self).tokens@,
                self.next_serial == old(self).next_serial,
                i <= n,
                p == (|t: Token| now <= t.expires_at),
                self.tokens@ == orig.take(i as int).filter(p) + orig.skip(i as int),
                j == orig.take(i as int).filter(p).len(),
            decreases n - i,
        {
            proof {
                assert(self.tokens@[j as int] == orig.skip(i as int)[0]);
                assert(orig.skip(i as int)[0] == orig[i as int]);
            }
            let keep = now <= self.tokens[j].expires_at;
            if keep {
                j += 1;
            } else {
                self.tokens.remove(j);
            }
            i += 1;
            proof {
                orig.take(i as int - 1).lemma_filter_push(orig[i as int - 1], p);
                assert(orig.take(i as int) =~= orig.take(i as int - 1).push(orig[i as int - 1]));
                assert(self.tokens@ =~= orig.take(i as int).filter(p) + orig.skip(i as int));
            }
        }
        proof {
            assert(orig.take(n as int) =~= orig);
            assert(orig.skip(n as int) =~= Seq::<Token>::empty());
            assert(self.tokens@ =~= orig.filter(p));
            lemma_tokens_wf_filter(orig, self.next_serial, p);
        }
    }
}

/// Round trip: a token standing in the issuer validates at any time up to
/// its expiry, and what comes back is that very token, scope included —
/// the scope a token carries never widens between issue and validation.
pub proof fn lemma_issue_then_validate(s: TokenIssuer, i: int, now: u64)
    requires
        s.wf(),
        0 <= i < s.tokens@.len(),
        now <= s.tokens@[i].expires_at,
    ensures
        s.has_access(s.tokens@[i].access_token@),
        s.token_at(s.tokens@[i].access_token@) == s.tokens@[i],
{
    let access = s.tokens@[i].access_token@;
    assert(0 <= i < s.tokens@.len() && s.tokens@[i].access_token@ == access);
    let k = s.access_index(access);
    assert(0 <= k < s.tokens@.len() && s.tokens@[k].access_token@ == access);
    if k != i {
        assert(s.tokens@[k].access_token@ != s.tokens@[i].access_token@);
    }
}

} // verus!
