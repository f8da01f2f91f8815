//! An insertion-ordered map from string keys to values.
//!
//! Keys are compared by their text; inserting under a key that is already
//! present replaces that entry's value in place, so each key occurs once.

use vstd::prelude::*;
use vstd::string::StrSliceExecFns;

verus! {

/// The position of the first entry of `s` whose key is `k`, if any.
pub open spec fn first_index<V>(s: Seq<(String, V)>, k: Seq<char>) -> Option<int>
    decreases s.len(),
{
    if s.len() == 0 {
        None
    } else if s[0].0@ == k {
        Some(0)
    } else {
        match first_index(s.drop_first(), k) {
            Some(i) => Some(i + 1),
            None => None,
        }
    }
}

/// The value that `s` holds under `k`: that of the first entry with that key.
pub open spec fn lookup<V>(s: Seq<(String, V)>, k: Seq<char>) -> Option<V> {
    match first_index(s, k) {
        Some(i) => Some(s[i].1),
        None => None,
    }
}

/// `s` after inserting `v` under `k`: the entry under `k` is replaced in place,
/// or a new entry is appended.
pub open spec fn inserted<V>(s: Seq<(String, V)>, k: String, v: V) -> Seq<(String, V)> {
    match first_index(s, k@) {
        Some(i) => s.update(i, (s[i].0, v)),
        None => s.push((k, v)),
    }
}

/// No key occurs twice in `s`.
pub open spec fn keys_unique<V>(s: Seq<(String, V)>) -> bool {
    forall|i: int, j: int| 0 <= i < j < s.len() ==> s[i].0@ != s[j].0@
}

/// What the first position of a key is.
pub proof fn lemma_first_index<V>(s: Seq<(String, V)>, k: Seq<char>)
    ensures
        match first_index(s, k) {
            Some(i) => 0 <= i < s.len() && s[i].0@ == k && forall|j: int|
                0 <= j < i ==> s[j].0@ != k,
            None => forall|j: int| 0 <= j < s.len() ==> s[j].0@ != k,
        },
    decreases s.len(),
{
    if s.len() > 0 {
        lemma_first_index(s.drop_first(), k);
        if s[0].0@ != k {
            match first_index(s.drop_first(), k) {
                Some(i) => {
                    assert forall|j: int| 0 <= j < i + 1 implies s[j].0@ != k by {
                        if j > 0 {
                            assert(s[j] == s.drop_first()[j - 1]);
                        }
                    }
                },
                None => {
                    assert forall|j: int| 0 <= j < s.len() implies s[j].0@ != k by {
                        if j > 0 {
                            assert(s[j] == s.drop_first()[j - 1]);
                        }
                    }
                },
            }
        }
    }
}

/// The first-index characterisation, as an equation.
pub proof fn lemma_first_index_is<V>(s: Seq<(String, V)>, k: Seq<char>, i: int)
    requires
        0 <= i < s.len(),
        s[i].0@ == k,
        forall|j: int| 0 <= j < i ==> s[j].0@ != k,
    ensures
        first_index(s, k) == Some(i),
{
    lemma_first_index(s, k);
}

/// A key that no entry holds has no first position.
pub proof fn lemma_first_index_none<V>(s: Seq<(String, V)>, k: Seq<char>)
    requires
        forall|j: int| 0 <= j < s.len() ==> s[j].0@ != k,
    ensures
        first_index(s, k) == None::<int>,
{
    lemma_first_index(s, k);
}

/// Insertion keeps keys unique.
pub proof fn lemma_inserted_unique<V>(s: Seq<(String, V)>, k: String, v: V)
    requires
        keys_unique(s),
    ensures
        keys_unique(inserted(s, k, v)),
{
    lemma_first_index(s, k@);
}

/// Whether two strings hold the same text.
pub fn text_eq(a: &str, b: &str) -> (r: bool)
    ensures
        r == (a@ == b@),
{
    a.to_owned() == b.to_owned()
}

/// What an insertion does to lookups and to the length.
pub proof fn lemma_inserted_lookup<V>(s: Seq<(String, V)>, k: String, v: V)
    ensures
        lookup(inserted(s, k, v), k@) == Some(v),
        forall|q: Seq<char>| q != k@ ==> lookup(inserted(s, k, v), q) == lookup(s, q),
        inserted(s, k, v).len() == if first_index(s, k@) is Some {
            s.len()
        } else {
            s.len() + 1
        },
        (lookup(s, k@) is None) == (first_index(s, k@) is None),
{
    let t = inserted(s, k, v);
    lemma_first_index(s, k@);
    lemma_first_index(t, k@);
    match first_index(s, k@) {
        Some(i) => {
            lemma_first_index_is(t, k@, i);
        },
        None => {
            lemma_first_index_is(t, k@, s.len() as int);
        },
    }
    assert forall|q: Seq<char>| q != k@ implies lookup(t, q) == lookup(s, q) by {
        lemma_first_index(s, q);
        lemma_first_index(t, q);
        match first_index(s, q) {
            Some(j) => {
                lemma_first_index_is(t, q, j);
            },
            None => {
                assert forall|j: int| 0 <= j < t.len() implies t[j].0@ != q by {
                    if j < s.len() {
                        assert(t[j].0 == s[j].0);
                    }
                }
                lemma_first_index_none(t, q);
            },
        }
    }
}

/// An insertion-ordered map from strings to values; each key occurs once.
#[derive(Debug, Clone)]
pub struct StrMap<V> {
    entries: Vec<(String, V)>,
}

impl<V> StrMap<V> {
    /// Each key occurs once.
    pub open spec fn wf(&self) -> bool {
        keys_unique(self@)
    }
}

impl<V> View for StrMap<V> {
    type V = Seq<(String, V)>;

    closed spec fn view(&self) -> Seq<(String, V)> {
        self.entries@
    }
}

impl<V> StrMap<V> {
    /// An empty map.
    pub fn new() -> (r: StrMap<V>)
        ensures
            r@ == Seq::<(String, V)>::empty(),
            r.wf(),
    {
        StrMap { entries: Vec::new() }
    }

    /// Position of the entry under `k`.
    fn find(&self, k: &str) -> (r: Option<usize>)
        ensures
            match r {
                Some(i) => first_index(self@, k@) == Some(i as int) && i < self@.len(),
                None => first_index(self@, k@) == None::<int>,
            },
    {
        let mut i: usize = 0;
        while i < self.entries.len()
            invariant
                i <= self.entries.len(),
                forall|j: int| 0 <= j < i ==> self.entries@[j].0@ != k@,
            decreases self.entries.len() - i,
        {
            if text_eq(self.entries[i].0.as_str(), k) {
                proof {
                    lemma_first_index_is(self@, k@, i as int);
                }
                return Some(i);
            }
            i = i + 1;
        }
        proof {
            lemma_first_index_none(self@, k@);
        }
        None
    }

    /// Inserts `v` under `k`, replacing the value already held under `k`.
    pub fn insert(&mut self, k: String, v: V)
        ensures
            final(self)@ == inserted(old(self)@, k, v),
            old(self).wf() ==> final(self).wf(),
    {
        proof {
            if old(self).wf() {
                lemma_inserted_unique(old(self)@, k, v);
            }
        }
        match self.find(k.as_str()) {
            Some(i) => {
                let ghost key = self.entries@[i as int].0;
                let mut e = self.entries.remove(i);
                e.1 = v;
                self.entries.insert(i, e);
                assert(self.entries@ =~= old(self)@.update(i as int, (key, v)));
            },
            None => {
                self.entries.push((k, v));
            },
        }
    }

    /// The value held under `k`.
    pub fn get(&self, k: &str) -> (r: Option<&V>)
        ensures
            match r {
                Some(x) => lookup(self@, k@) == Some(*x),
                None => lookup(self@, k@) == None::<V>,
            },
    {
        match self.find(k) {
            Some(i) => Some(&self.entries[i].1),
            None => None,
        }
    }

    /// Whether some entry is held under `k`.
    pub fn contains_key(&self, k: &str) -> (r: bool)
        ensures
            r == (first_index(self@, k@) is Some),
    {
        self.find(k).is_some()
    }

    /// Number of entries.
    pub fn len(&self) -> (r: usize)
        ensures
            r == self@.len(),
    {
        self.entries.len()
    }

    /// Whether the map has no entries.
    pub fn is_empty(&self) -> (r: bool)
        ensures
            r == (self@.len() == 0),
    {
        self.entries.len() == 0
    }

    /// The key of the entry at position `i`.
    pub fn key_at(&self, i: usize) -> (r: &String)
        requires
            i < self@.len(),
        ensures
            *r == self@[i as int].0,
    {
        &self.entries[i].0
    }

    /// The value of the entry at position `i`.
    pub fn value_at(&self, i: usize) -> (r: &V)
        requires
            i < self@.len(),
        ensures
            *r == self@[i as int].1,
    {
        &self.entries[i].1
    }
}


/// The key texts of `s`, in order.
pub open spec fn text_keys<V>(s: Seq<(String, V)>) -> Seq<Seq<char>> {
    Seq::new(s.len(), |i: int| s[i].0@)
}

/// The value texts of a string-to-string list, in order.
pub open spec fn text_vals(s: Seq<(String, String)>) -> Seq<Seq<char>> {
    Seq::new(s.len(), |i: int| s[i].1@)
}

/// Inserting `v` under `k` into parallel key and value lists.
pub open spec fn inserted_kv<V>(
    ks: Seq<Seq<char>>,
    vs: Seq<V>,
    k: Seq<char>,
    v: V,
) -> (Seq<Seq<char>>, Seq<V>) {
    match crate::json::first_key(ks, k) {
        Some(i) => (ks, vs.update(i, v)),
        None => (ks.push(k), vs.push(v)),
    }
}

/// Both ways of finding a key agree.
pub proof fn lemma_first_index_keys<V>(s: Seq<(String, V)>, k: Seq<char>)
    ensures
        first_index(s, k) == crate::json::first_key(text_keys(s), k),
{
    lemma_first_index(s, k);
    match first_index(s, k) {
        Some(i) => {
            crate::json::lemma_first_key_is(text_keys(s), k, i);
        },
        None => {
            crate::json::lemma_first_key_none(text_keys(s), k);
        },
    }
}

/// Insertion, seen through the texts.
pub proof fn lemma_inserted_texts(s: Seq<(String, String)>, k: String, v: String)
    ensures
        (text_keys(inserted(s, k, v)), text_vals(inserted(s, k, v))) == inserted_kv(
            text_keys(s),
            text_vals(s),
            k@,
            v@,
        ),
{
    lemma_first_index_keys(s, k@);
    lemma_first_index(s, k@);
    let t = inserted(s, k, v);
    let e = inserted_kv(text_keys(s), text_vals(s), k@, v@);
    assert(text_keys(t) =~= e.0);
    assert(text_vals(t) =~= e.1);
}

/// Lexicographic order on texts, by character: `a` sorts before `b`.
pub open spec fn text_less(a: Seq<char>, b: Seq<char>) -> bool
    decreases a.len(),
{
    if a.len() == 0 {
        b.len() > 0
    } else if b.len() == 0 {
        false
    } else if a[0] != b[0] {
        a[0] < b[0]
    } else {
        text_less(a.drop_first(), b.drop_first())
    }
}

/// Whether the text `a` sorts before `b`.
pub fn text_lt(a: &str, b: &str) -> (r: bool)
    ensures
        r == text_less(a@, b@),
{
    let na = a.unicode_len();
    let nb = b.unicode_len();
    let mut i: usize = 0;
    assert(a@.skip(0) =~= a@);
    assert(b@.skip(0) =~= b@);
    while i < na && i < nb
        invariant
            na == a@.len(),
            nb == b@.len(),
            i <= na,
            i <= nb,
            text_less(a@, b@) == text_less(a@.skip(i as int), b@.skip(i as int)),
        decreases na - i,
    {
        let ca = a.get_char(i);
        let cb = b.get_char(i);
        if ca != cb {
            return ca < cb;
        }
        assert(a@.skip(i as int).drop_first() =~= a@.skip(i + 1));
        assert(b@.skip(i as int).drop_first() =~= b@.skip(i + 1));
        i = i + 1;
    }
    i < nb && i == na
}

/// The position, among the first `n` entries of `s`, of the entry with the
/// smallest key (the earliest of equal ones).
pub open spec fn min_index<V>(s: Seq<(String, V)>, n: int) -> int
    decreases n,
{
    if n <= 1 {
        0
    } else {
        let m = min_index(s, n - 1);
        if text_less(s[n - 1].0@, s[m].0@) {
            n - 1
        } else {
            m
        }
    }
}

pub proof fn lemma_min_index_range<V>(s: Seq<(String, V)>, n: int)
    requires
        1 <= n,
    ensures
        0 <= min_index(s, n) < n,
    decreases n,
{
    if n > 1 {
        lemma_min_index_range(s, n - 1);
    }
}

/// The entries of `s` by increasing key: the smallest first, then the rest
/// in the same way.
pub open spec fn sorted_entries<V>(s: Seq<(String, V)>) -> Seq<(String, V)>
    decreases s.len(),
{
    if s.len() == 0 {
        Seq::empty()
    } else {
        let m = min_index(s, s.len() as int);
        if 0 <= m < s.len() {
            seq![s[m]] + sorted_entries(s.remove(m))
        } else {
            Seq::empty()
        }
    }
}

/// The entries at positions `pos`, in that order.
pub open spec fn at_positions<V>(s: Seq<(String, V)>, pos: Seq<usize>) -> Seq<(String, V)> {
    Seq::new(pos.len(), |q: int| s[pos[q] as int])
}

impl<V> StrMap<V> {
    /// The positions of the entries, by increasing key.
    pub fn sorted_positions(&self) -> (r: Vec<usize>)
        ensures
            at_positions(self@, r@) == sorted_entries(self@),
            forall|q: int| 0 <= q < r@.len() ==> #[trigger] r@[q] < self@.len(),
    {
        let n = self.entries.len();
        let mut remaining: Vec<usize> = Vec::new();
        let mut j: usize = 0;
        while j < n
            invariant
                j <= n,
                n == self@.len(),
                remaining@.len() == j,
                forall|q: int| 0 <= q < j ==> #[trigger] remaining@[q] == q,
            decreases n - j,
        {
            remaining.push(j);
            j = j + 1;
        }
        assert(at_positions(self@, remaining@) =~= self@);
        let mut out: Vec<usize> = Vec::new();
        assert(at_positions(self@, out@) + sorted_entries(at_positions(self@, remaining@))
            =~= sorted_entries(self@));
        while remaining.len() > 0
            invariant
                n == self@.len(),
                forall|q: int| 0 <= q < remaining@.len() ==> #[trigger] remaining@[q] < n,
                forall|q: int| 0 <= q < out@.len() ==> #[trigger] out@[q] < n,
                at_positions(self@, out@) + sorted_entries(at_positions(self@, remaining@))
                    == sorted_entries(self@),
            decreases remaining.len(),
        {
            let ghost rest = at_positions(self@, remaining@);
            let mut p: usize = 0;
            let mut k: usize = 1;
            while k < remaining.len()
                invariant
                    n == self@.len(),
                    forall|q: int| 0 <= q < remaining@.len() ==> #[trigger] remaining@[q] < n,
                    rest == at_positions(self@, remaining@),
                    1 <= k <= remaining@.len(),
                    p as int == min_index(rest, k as int),
                    p < k,
                decreases remaining.len() - k,
            {
                if text_lt(
                    self.entries[remaining[k]].0.as_str(),
                    self.entries[remaining[p]].0.as_str(),
                ) {
                    p = k;
                }
                k = k + 1;
            }
            let ghost taken = at_positions(self@, out@);
            out.push(remaining[p]);
            remaining.remove(p);
            proof {
                assert(at_positions(self@, out@) =~= taken.push(rest[p as int]));
                assert(at_positions(self@, remaining@) =~= rest.remove(p as int));
                assert(sorted_entries(rest) == seq![rest[p as int]] + sorted_entries(
                    rest.remove(p as int),
                ));
                assert(at_positions(self@, out@) + sorted_entries(at_positions(self@, remaining@))
                    =~= taken + sorted_entries(rest));
            }
        }
        assert(at_positions(self@, remaining@) =~= Seq::<(String, V)>::empty());
        assert(at_positions(self@, out@) =~= sorted_entries(self@));
        out
    }
}

} // verus!
