//! Header carriers: an ordered, multi-valued list of (name, value) pairs.

use vstd::prelude::*;

verus! {

/// The model of a carrier: its pairs, in order.
pub type HeaderSeq = Seq<(Seq<char>, Seq<char>)>;

pub open spec fn pair_view(p: (String, String)) -> (Seq<char>, Seq<char>) {
    (p.0@, p.1@)
}

pub open spec fn opt_view(o: Option<String>) -> Option<Seq<char>> {
    match o {
        Some(s) => Some(s@),
        None => None,
    }
}

/// The first value stored under `k`, if any.
pub open spec fn first_value(h: HeaderSeq, k: Seq<char>) -> Option<Seq<char>>
    decreases h.len(),
{
    if h.len() == 0 {
        None
    } else {
        match first_value(h.drop_last(), k) {
            Some(v) => Some(v),
            None => if h.last().0 == k {
                Some(h.last().1)
            } else {
                None
            },
        }
    }
}

/// The pairs of `h` whose name is not `k`, in order.
pub open spec fn without(h: HeaderSeq, k: Seq<char>) -> HeaderSeq
    decreases h.len(),
{
    if h.len() == 0 {
        h
    } else if h.last().0 == k {
        without(h.drop_last(), k)
    } else {
        without(h.drop_last(), k).push(h.last())
    }
}

/// How many times the exact pair `(k, v)` occurs in `h`.
pub open spec fn count_pair(h: HeaderSeq, k: Seq<char>, v: Seq<char>) -> nat
    decreases h.len(),
{
    if h.len() == 0 {
        0
    } else {
        count_pair(h.drop_last(), k, v) + if h.last() == (k, v) {
            1nat
        } else {
            0nat
        }
    }
}

pub open spec fn has_name(h: HeaderSeq, k: Seq<char>) -> bool {
    exists|i: int| 0 <= i < h.len() && (#[trigger] h[i]).0 == k
}

/// A pair with a name that `h` does not hold occurs in it nowhere.
pub proof fn lemma_absent_name_count(h: HeaderSeq, k: Seq<char>, v: Seq<char>)
    requires
        !has_name(h, k),
    ensures
        count_pair(h, k, v) == 0,
    decreases h.len(),
{
    if h.len() > 0 {
        let t = h.drop_last();
        assert forall|i: int| 0 <= i < t.len() implies (#[trigger] t[i]).0 != k by {
            assert(t[i] == h[i]);
        }
        lemma_absent_name_count(t, k, v);
        assert(h[h.len() - 1] == h.last());
    }
}

/// Nothing named `k` is left in `without(h, k)`, and so no value under it.
pub proof fn lemma_without_has_no_name(h: HeaderSeq, k: Seq<char>)
    ensures
        !has_name(without(h, k), k),
        first_value(without(h, k), k) is None,
    decreases h.len(),
{
    if h.len() > 0 {
        lemma_without_has_no_name(h.drop_last(), k);
        let w = without(h.drop_last(), k);
        if h.last().0 != k {
            let w2 = w.push(h.last());
            assert(w2.drop_last() =~= w);
            assert forall|i: int| 0 <= i < w2.len() implies (#[trigger] w2[i]).0 != k by {
                if i < w.len() {
                    assert(w2[i] == w[i]);
                }
            }
        }
    }
}

/// A carrier of header lines, in the order they were added.
pub struct HeaderMap {
    pub entries: Vec<(String, String)>,
}

impl View for HeaderMap {
    type V = HeaderSeq;

    open spec fn view(&self) -> HeaderSeq {
        self.entries@.map_values(|p: (String, String)| pair_view(p))
    }
}

impl HeaderMap {
    pub fn new() -> (r: HeaderMap)
        ensures
            r@ == Seq::<(Seq<char>, Seq<char>)>::empty(),
    {
        let r = HeaderMap { entries: Vec::new() };
        assert(r@ =~= Seq::<(Seq<char>, Seq<char>)>::empty());
        r
    }

    pub fn len(&self) -> (r: usize)
        ensures
            r == self@.len(),
    {
        self.entries.len()
    }

    /// Adds `(name, value)` after every pair already held; nothing is removed.
    pub fn append(&mut self, name: String, value: String)
        ensures
            final(self)@ == old(self)@.push((name@, value@)),
    {
        self.entries.push((name, value));
        assert(final(self)@ =~= old(self)@.push((name@, value@)));
    }

    /// The first value stored under `name`.
    pub fn get(&self, name: &String) -> (r: Option<String>)
        ensures
            opt_view(r) == first_value(self@, name@),
    {
        let mut i: usize = 0;
        while i < self.entries.len()
            invariant
                i <= self.entries@.len(),
                first_value(self@.take(i as int), name@) is None,
            decreases self.entries@.len() - i,
        {
            let ghost h = self@;
            assert(h.take(i + 1).drop_last() =~= h.take(i as int));
            if self.entries[i].0.eq(name) {
                proof {
                    lemma_first_value_prefix(h, name@, i as int + 1);
                }
                return Some(self.entries[i].1.clone());
            }
            i += 1;
        }
        assert(self@.take(i as int) =~= self@);
        None
    }

    /// Replaces every pair named `name` by one pair `(name, value)` at the end.
    pub fn insert(&mut self, name: String, value: String)
        ensures
            final(self)@ == without(old(self)@, name@).push((name@, value@)),
    {
        let ghost h = self@;
        let mut kept: Vec<(String, String)> = Vec::new();
        let mut i: usize = 0;
        while i < self.entries.len()
            invariant
                i <= self.entries@.len(),
                self@ == h,
                kept@.map_values(|p: (String, String)| pair_view(p)) == without(
                    h.take(i as int),
                    name@,
                ),
            decreases self.entries@.len() - i,
        {
            assert(h.take(i + 1).drop_last() =~= h.take(i as int));
            assert(h.take(i + 1).last() == pair_view(self.entries@[i as int]));
            if !self.entries[i].0.eq(&name) {
                let p = (self.entries[i].0.clone(), self.entries[i].1.clone());
                let ghost before = kept@;
                kept.push(p);
                assert(kept@.map_values(|p: (String, String)| pair_view(p)) =~= before.map_values(
                    |p: (String, String)| pair_view(p),
                ).push(pair_view(p)));
            }
            i += 1;
        }
        assert(h.take(i as int) =~= h);
        let ghost before = kept@;
        kept.push((name, value));
        self.entries = kept;
        assert(final(self)@ =~= before.map_values(|p: (String, String)| pair_view(p)).push(
            (name@, value@),
        ));
    }
}

/// If no value under `k` lies in the first `n - 1` pairs and pair `n - 1` is
/// named `k`, its value is the first one.
proof fn lemma_first_value_prefix(h: HeaderSeq, k: Seq<char>, n: int)
    requires
        0 < n <= h.len(),
        first_value(h.take(n - 1), k) is None,
        h.take(n).drop_last() == h.take(n - 1),
        h[n - 1].0 == k,
    ensures
        first_value(h, k) == Some(h[n - 1].1),
    decreases h.len() - n,
{
    if n < h.len() {
        assert(h.take(n + 1).drop_last() =~= h.take(n));
        lemma_first_value_extends(h, k, n + 1, h[n - 1].1);
    } else {
        assert(h.take(n) =~= h);
    }
}

proof fn lemma_first_value_extends(h: HeaderSeq, k: Seq<char>, n: int, v: Seq<char>)
    requires
        0 < n <= h.len(),
        first_value(h.take(n - 1), k) == Some(v),
        h.take(n).drop_last() == h.take(n - 1),
    ensures
        first_value(h, k) == Some(v),
    decreases h.len() - n,
{
    if n < h.len() {
        assert(h.take(n + 1).drop_last() =~= h.take(n));
        lemma_first_value_extends(h, k, n + 1, v);
    } else {
        assert(h.take(n) =~= h);
    }
}

/// What `http::HeaderName::from_bytes` makes of a name: `None` when it
/// refuses it, else the normalised (lower-case) name.
pub uninterp spec fn normalized_header_name(s: Seq<char>) -> Option<Seq<char>>;

/// Relies on `http::HeaderName::from_bytes`: it validates a header name and
/// normalises it; the outcome depends on the bytes alone.
#[verifier::external_body]
pub(crate) fn parse_header_name(s: &str) -> (r: Option<String>)
    ensures
        opt_view(r) == normalized_header_name(s@),
{
    http::HeaderName::from_bytes(s.as_bytes()).ok().map(|n| n.as_str().to_string())
}

/// A character that may stand in a header value: a tab, or any character
/// from the space upwards except DEL.
pub open spec fn valid_value_char(c: char) -> bool {
    ((c as u32) >= 32 && (c as u32) != 127) || c == '\t'
}

pub open spec fn valid_header_value(s: Seq<char>) -> bool {
    forall|i: int| 0 <= i < s.len() ==> valid_value_char(#[trigger] s[i])
}

/// Relies on `http::HeaderValue::from_str`: it accepts a string exactly when
/// every byte is a tab, or at least 0x20 and not 0x7f (so every non-ASCII
/// character is accepted).
#[verifier::external_body]
pub(crate) fn header_value_accepted(s: &str) -> (r: bool)
    ensures
        r == valid_header_value(s@),
{
    http::HeaderValue::from_str(s).is_ok()
}

} // verus!
