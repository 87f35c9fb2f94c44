//! Scopes: sets of named permission tokens.
//!
//! A scope travels on the wire as one string of space-separated tokens;
//! here it is a [`ScopeSet`], whose view is the set of token character
//! sequences.  A requested scope is honoured iff it is a subset of the
//! client's allowed scopes.  Token characters are the ones RFC 6749 allows
//! (printable ASCII except space, double quote and backslash), which also
//! keeps scope strings safe to embed in JSON bodies without escaping.

use vstd::prelude::*;

verus! {

/// A character a scope token may contain.
pub open spec fn scope_char_ok(c: char) -> bool {
    c as u32 == 0x21 || (0x23 <= c as u32 && c as u32 <= 0x5b) || (0x5d <= c as u32 && c as u32
        <= 0x7e)
}

/// A well-formed scope token: nonempty, every character allowed.
pub open spec fn scope_token_ok(t: Seq<char>) -> bool {
    t.len() > 0 && (forall|i: int| 0 <= i < t.len() ==> scope_char_ok(t[i]))
}

/// The words of `s`, split at every single space.
pub open spec fn scope_words(s: Seq<char>) -> Seq<Seq<char>>
    decreases s.len(),
{
    if s.len() == 0 {
        seq![Seq::<char>::empty()]
    } else if s[0] == ' ' {
        seq![Seq::<char>::empty()] + scope_words(s.drop_first())
    } else {
        let rest = scope_words(s.drop_first());
        seq![seq![s[0]] + rest[0]] + rest.drop_first()
    }
}

pub proof fn lemma_scope_words_len(s: Seq<char>)
    ensures
        scope_words(s).len() >= 1,
    decreases s.len(),
{
    if s.len() != 0 {
        lemma_scope_words_len(s.drop_first());
    }
}

/// Every word of `s` is a well-formed scope token.
pub open spec fn scope_string_ok(s: Seq<char>) -> bool {
    forall|i: int| 0 <= i < scope_words(s).len() ==> scope_token_ok(#[trigger] scope_words(s)[i])
}

/// The words with later repetitions of a word dropped.
pub open spec fn dedup_words(ws: Seq<Seq<char>>) -> Seq<Seq<char>>
    decreases ws.len(),
{
    if ws.len() == 0 {
        Seq::<Seq<char>>::empty()
    } else {
        let rest = dedup_words(ws.drop_last());
        if rest.contains(ws.last()) {
            rest
        } else {
            rest.push(ws.last())
        }
    }
}

pub proof fn lemma_dedup_words_contains(ws: Seq<Seq<char>>, t: Seq<char>)
    ensures
        dedup_words(ws).contains(t) == ws.contains(t),
    decreases ws.len(),
{
    broadcast use vstd::seq_lib::lemma_seq_contains_after_push;

    if ws.len() > 0 {
        lemma_dedup_words_contains(ws.drop_last(), t);
        assert(ws.contains(t) == (ws.drop_last().contains(t) || ws.last() == t)) by {
            assert(ws =~= ws.drop_last().push(ws.last()));
            if ws.contains(t) {
                let i = choose|i: int| 0 <= i < ws.len() && ws[i] == t;
                if i < ws.len() - 1 {
                    assert(ws.drop_last()[i] == t);
                }
            }
            if ws.drop_last().contains(t) {
                let i = choose|i: int| 0 <= i < ws.drop_last().len() && ws.drop_last()[i] == t;
                assert(ws[i] == t);
            }
        }
    }
}

/// The words joined by single spaces.
pub open spec fn join_words(ws: Seq<Seq<char>>) -> Seq<char>
    decreases ws.len(),
{
    if ws.len() == 0 {
        Seq::<char>::empty()
    } else if ws.len() == 1 {
        ws[0]
    } else {
        ws[0] + seq![' '] + join_words(ws.drop_first())
    }
}

/// A set of distinct, well-formed scope tokens.
pub struct ScopeSet {
    pub tokens: Vec<String>,
}

impl View for ScopeSet {
    type V = Set<Seq<char>>;

    open spec fn view(&self) -> Set<Seq<char>> {
        Set::new(|t: Seq<char>| self.words().contains(t))
    }
}

impl ScopeSet {
    /// The tokens in their stored order.
    pub open spec fn words(&self) -> Seq<Seq<char>> {
        self.tokens@.map_values(|s: String| s@)
    }

    /// Every token well formed, no token twice.
    pub open spec fn wf(&self) -> bool {
        &&& forall|i: int| 0 <= i < self.words().len() ==> scope_token_ok(#[trigger] self.words()[i])
        &&& forall|i: int, j: int|
            0 <= i < j < self.words().len() ==> self.words()[i] != self.words()[j]
    }

    /// The scope with no tokens.
    pub fn empty() -> (r: Self)
        ensures
            r.wf(),
            r.words() =~= Seq::<Seq<char>>::empty(),
            r@ =~= Set::<Seq<char>>::empty(),
    {
        ScopeSet { tokens: Vec::new() }
    }

    /// Whether the scope holds the token `t`.
    pub fn contains_token(&self, t: &str) -> (r: bool)
        ensures
            r == self@.contains(t@),
    {
        let n = self.tokens.len();
        for i in 0..n
            invariant
                n == self.tokens.len(),
                forall|j: int| 0 <= j < i ==> self.words()[j] != t@,
        {
            if crate::text::str_eq(self.tokens[i].as_str(), t) {
                assert(self.words()[i as int] == t@);
                return true;
            }
        }
        false
    }

    /// Whether every token of this scope also stands in `other`.
    pub fn subset_of(&self, other: &ScopeSet) -> (r: bool)
        ensures
            r == self@.subset_of(other@),
    {
        let n = self.tokens.len();
        for i in 0..n
            invariant
                n == self.tokens.len(),
                forall|j: int| 0 <= j < i ==> other@.contains(#[trigger] self.words()[j]),
        {
            if !other.contains_token(self.tokens[i].as_str()) {
                assert(self@.contains(self.words()[i as int]));
                return false;
            }
        }
        assert forall|t: Seq<char>| self@.contains(t) implies other@.contains(t) by {
            let j = choose|j: int| 0 <= j < self.words().len() && self.words()[j] == t;
            assert(other@.contains(self.words()[j]));
        }
        true
    }

    /// A fresh scope with the same tokens.
    pub fn duplicate(&self) -> (r: Self)
        ensures
            r.words() =~= self.words(),
            r@ =~= self@,
            r.wf() == self.wf(),
    {
        let n = self.tokens.len();
        let mut out: Vec<String> = Vec::new();
        for i in 0..n
            invariant
                n == self.tokens.len(),
                out@.len() == i,
                forall|j: int| 0 <= j < i ==> out@[j]@ == self.tokens@[j]@,
        {
            out.push(self.tokens[i].clone());
        }
        let r = ScopeSet { tokens: out };
        proof {
            assert(r.words() =~= self.words());
            assert(r@ =~= self@);
        }
        r
    }

    /// Decides [`ScopeSet::wf`]: every token well formed, no token twice.
    pub fn wf_check(&self) -> (r: bool)
        ensures
            r == self.wf(),
    {
        let n = self.tokens.len();
        for i in 0..n
            invariant
                n == self.tokens.len(),
                forall|a: int| 0 <= a < i ==> scope_token_ok(#[trigger] self.words()[a]),
                forall|a: int, b: int| 0 <= a < b < i ==> self.words()[a] != self.words()[b],
        {
            if !token_ok(self.tokens[i].as_str()) {
                assert(!scope_token_ok(self.words()[i as int]));
                return false;
            }
            for j in 0..i
                invariant
                    n == self.tokens.len(),
                    i < n,
                    forall|a: int| 0 <= a < j ==> self.words()[a] != self.words()[i as int],
            {
                if crate::text::str_eq(self.tokens[j].as_str(), self.tokens[i].as_str()) {
                    assert(self.words()[j as int] == self.words()[i as int]);
                    return false;
                }
            }
        }
        true
    }

    /// Builds a scope from words as they came off the wire: fails iff any
    /// word is not a well-formed token; keeps the first occurrence of each.
    pub fn from_words(ws: &Vec<String>) -> (r: Option<Self>)
        ensures
            (r is Some) == (forall|i: int|
                0 <= i < ws@.len() ==> scope_token_ok(#[trigger] ws@[i]@)),
            r matches Some(sc) ==> sc.wf() && sc.words() =~= dedup_words(
                ws@.map_values(|s: String| s@),
            ) && (forall|t: Seq<char>|
                sc@.contains(t) == ws@.map_values(|s: String| s@).contains(t)),
    {
        proof {
            let m = ws@.map_values(|s: String| s@);
            assert forall|t: Seq<char>| #[trigger] dedup_words(m).contains(t) == m.contains(
                t,
            ) by {
                lemma_dedup_words_contains(m, t);
            }
        }
        let ghost all: Seq<Seq<char>> = ws@.map_values(|s: String| s@);
        let n = ws.len();
        let mut acc = ScopeSet::empty();
        for i in 0..n
            invariant
                n == ws.len(),
                all == ws@.map_values(|s: String| s@),
                acc.wf(),
                acc.words() =~= dedup_words(all.take(i as int)),
                forall|j: int| 0 <= j < i ==> scope_token_ok(#[trigger] all[j]),
        {
            if !token_ok(ws[i].as_str()) {
                assert(all[i as int] == ws@[i as int]@);
                assert(!scope_token_ok(ws@[i as int]@));
                return None;
            }
            proof {
                assert(all.take(i as int + 1).drop_last() =~= all.take(i as int));
                assert(all.take(i as int + 1).last() == all[i as int]);
            }
            if !acc.contains_token(ws[i].as_str()) {
                let ghost before = acc.words();
                acc.tokens.push(ws[i].clone());
                proof {
                    assert(acc.words() =~= before.push(all[i as int]));
                    assert forall|t: Seq<char>| before.contains(t) implies dedup_words(
                        all.take(i as int),
                    ).contains(t) by {}
                    assert(acc.words() =~= dedup_words(all.take(i as int + 1)));
                }
            } else {
                proof {
                    assert(dedup_words(all.take(i as int)).contains(all[i as int]));
                    assert(acc.words() =~= dedup_words(all.take(i as int + 1)));
                }
            }
        }
        proof {
            assert(all.take(n as int) =~= all);
            assert forall|i: int| 0 <= i < ws@.len() implies scope_token_ok(
                #[trigger] ws@[i]@,
            ) by {
                assert(all[i] == ws@[i]@);
            }
        }
        Some(acc)
    }

    /// The scope as one space-separated string, in stored token order.
    pub fn as_param(&self) -> (r: String)
        ensures
            r@ == join_words(self.words()),
    {
        proof {
            assert(self.tokens@.map_values(|s: String| s@).skip(0) =~= self.words());
        }
        join_from(&self.tokens, 0)
    }
}

/// Whether `w` is a well-formed scope token.
pub fn token_ok(w: &str) -> (r: bool)
    ensures
        r == scope_token_ok(w@),
{
    let n = w.unicode_len();
    if n == 0 {
        return false;
    }
    for i in 0..n
        invariant
            n == w@.len(),
            forall|j: int| 0 <= j < i ==> scope_char_ok(w@[j]),
    {
        let c = w.get_char(i);
        let v = c as u32;
        if !(v == 0x21 || (0x23 <= v && v <= 0x5b) || (0x5d <= v && v <= 0x7e)) {
            return false;
        }
    }
    true
}

/// Splits `s` from position `from` on at every space.
pub fn split_words(s: &str, from: usize) -> (r: Vec<String>)
    requires
        from <= s@.len(),
    ensures
        r@.map_values(|w: String| w@) =~= scope_words(s@.skip(from as int)),
    decreases s@.len() - from,
{
    let len = s.unicode_len();
    proof {
        lemma_scope_words_len(s@.skip(from as int + 1));
    }
    if from == len {
        let mut v: Vec<String> = Vec::new();
        v.push(String::new());
        proof {
            assert(s@.skip(from as int).len() == 0);
        }
        v
    } else {
        proof {
            assert(s@.skip(from as int)[0] == s@[from as int]);
            assert(s@.skip(from as int).drop_first() =~= s@.skip(from as int + 1));
        }
        let c = s.get_char(from);
        if c == ' ' {
            let mut r = split_words(s, from + 1);
            r.insert(0, String::new());
            proof {
                assert(r@.map_values(|w: String| w@) =~= scope_words(s@.skip(from as int)));
            }
            r
        } else {
            let mut r = split_words(s, from + 1);
            let ghost rest = scope_words(s@.skip(from as int + 1));
            let first = r.remove(0);
            let mut w = s.substring_char(from, from + 1).to_owned();
            w.append(first.as_str());
            proof {
                assert(w@ =~= seq![s@[from as int]] + rest[0]);
            }
            r.insert(0, w);
            proof {
                assert(r@.map_values(|w: String| w@) =~= scope_words(s@.skip(from as int)));
            }
            r
        }
    }
}

/// Parses a wire scope string: `Some` iff every space-separated word is a
/// well-formed token; the result keeps the first occurrence of each word.
pub fn parse_scope(s: &str) -> (r: Option<ScopeSet>)
    ensures
        (r is Some) == scope_string_ok(s@),
        r matches Some(sc) ==> sc.wf() && sc.words() =~= dedup_words(scope_words(s@)) && (forall|
            t: Seq<char>,
        |
            sc@.contains(t) == scope_words(s@).contains(t)),
    {
    proof {
        assert(s@.skip(0) =~= s@);
    }
    let ws = split_words(s, 0);
    proof {
        assert(ws@.map_values(|w: String| w@) =~= scope_words(s@));
    }
    let r = ScopeSet::from_words(&ws);
    proof {
        let m = ws@.map_values(|w: String| w@);
        assert forall|i: int| 0 <= i < ws@.len() implies ws@[i]@ == #[trigger] scope_words(
            s@,
        )[i] by {
            assert(m[i] == ws@[i]@);
        }
        if r is Some {
            assert(scope_string_ok(s@)) by {
                assert forall|i: int| 0 <= i < scope_words(s@).len() implies scope_token_ok(
                    #[trigger] scope_words(s@)[i],
                ) by {
                    assert(scope_words(s@)[i] == ws@[i]@);
                }
            }
        } else {
            let i = choose|i: int| 0 <= i < ws@.len() && !scope_token_ok(ws@[i]@);
            assert(!scope_token_ok(scope_words(s@)[i]));
        }
    }
    r
}

/// Joins the words from position `i` on with single spaces.
fn join_from(v: &Vec<String>, i: usize) -> (r: String)
    requires
        i <= v.len(),
    ensures
        r@ == join_words(v@.map_values(|s: String| s@).skip(i as int)),
    decreases v.len() - i,
{
    let ghost ws = v@.map_values(|s: String| s@).skip(i as int);
    if i == v.len() {
        proof {
            assert(ws.len() == 0);
        }
        String::new()
    } else if i + 1 == v.len() {
        proof {
            assert(ws.len() == 1);
            assert(ws[0] == v@[i as int]@);
        }
        v[i].clone()
    } else {
        let mut s = v[i].clone();
        s.append(" ");
        let t = join_from(v, i + 1);
        s.append(t.as_str());
        proof {
            reveal_strlit(" ");
            assert(" "@ =~= seq![' ']);
            assert(ws[0] == v@[i as int]@);
            assert(ws.drop_first() =~= v@.map_values(|s: String| s@).skip(i as int + 1));
            assert(s@ =~= ws[0] + seq![' '] + join_words(ws.drop_first()));
        }
        s
    }
}

} // verus!
