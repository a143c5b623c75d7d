//! A finite map keyed by strings, kept as a vector of entries whose keys
//! are pairwise distinct. Its model is a `Map` from the keys' character
//! sequences to the values.

use vstd::prelude::*;
use crate::text::{
    char_seq_lt, lemma_char_seq_lt_irreflexive, lemma_char_seq_lt_total, lemma_char_seq_lt_transitive,
    str_eq, str_lt,
};

verus! {

/// Whether some entry of `s` has key `k`.
pub open spec fn pairs_has<V>(s: Seq<(String, V)>, k: Seq<char>) -> bool {
    exists|i: int| 0 <= i < s.len() && #[trigger] s[i].0@ == k
}

/// The position of the entry with key `k` (meaningful when `pairs_has`).
pub open spec fn pairs_index<V>(s: Seq<(String, V)>, k: Seq<char>) -> int {
    choose|i: int| 0 <= i < s.len() && #[trigger] s[i].0@ == k
}

/// No two entries share a key.
pub open spec fn pairs_distinct<V>(s: Seq<(String, V)>) -> bool {
    forall|i: int, j: int|
        0 <= i < s.len() && 0 <= j < s.len() && i != j ==> #[trigger] s[i].0@ != #[trigger] s[j].0@
}

/// The keys of `s` strictly increase, in the order of `str`.
pub open spec fn pairs_sorted<V>(s: Seq<(String, V)>) -> bool {
    forall|i: int, j: int| 0 <= i < j < s.len() ==> char_seq_lt(#[trigger] s[i].0@, #[trigger] s[j].0@)
}

/// Strictly increasing keys are distinct.
pub proof fn lemma_sorted_distinct<V>(s: Seq<(String, V)>)
    requires
        pairs_sorted(s),
    ensures
        pairs_distinct(s),
{
    assert forall|i: int, j: int|
        0 <= i < s.len() && 0 <= j < s.len() && i != j implies #[trigger] s[i].0@ != #[trigger] s[j].0@ by {
        if i < j {
            lemma_char_seq_lt_irreflexive(s[i].0@);
        } else {
            lemma_char_seq_lt_irreflexive(s[j].0@);
        }
    }
}

/// The map that a sequence of entries stands for.
pub open spec fn pairs_view<V>(s: Seq<(String, V)>) -> Map<Seq<char>, V> {
    Map::new(|k: Seq<char>| pairs_has(s, k), |k: Seq<char>| s[pairs_index(s, k)].1)
}

/// In a sequence with distinct keys, entry `i` is what the map holds at its key.
pub proof fn lemma_pairs_at<V>(s: Seq<(String, V)>, i: int)
    requires
        pairs_distinct(s),
        0 <= i < s.len(),
    ensures
        pairs_view(s).contains_key(s[i].0@),
        pairs_view(s)[s[i].0@] == s[i].1,
        pairs_index(s, s[i].0@) == i,
{
    assert(pairs_has(s, s[i].0@));
    let j = pairs_index(s, s[i].0@);
    assert(s[j].0@ == s[i].0@);
}

/// Every key of the map is the key of some entry.
pub proof fn lemma_pairs_key<V>(s: Seq<(String, V)>, k: Seq<char>)
    requires
        pairs_view(s).contains_key(k),
    ensures
        0 <= pairs_index(s, k) < s.len(),
        s[pairs_index(s, k)].0@ == k,
        pairs_view(s)[k] == s[pairs_index(s, k)].1,
{
}

/// The number of keys of the map is the number of entries.
pub proof fn lemma_pairs_len<V>(s: Seq<(String, V)>)
    requires
        pairs_distinct(s),
    ensures
        pairs_view(s).dom().finite(),
        pairs_view(s).dom().len() == s.len(),
    decreases s.len(),
{
    if s.len() == 0 {
        assert(pairs_view(s).dom() =~= Set::<Seq<char>>::empty());
    } else {
        let t = s.drop_last();
        assert(pairs_distinct(t)) by {
            assert forall|i: int, j: int|
                0 <= i < t.len() && 0 <= j < t.len() && i != j implies #[trigger] t[i].0@
                != #[trigger] t[j].0@ by {
                assert(t[i] == s[i]);
                assert(t[j] == s[j]);
            }
        }
        lemma_pairs_len(t);
        let last = s.last().0@;
        assert(pairs_view(s).dom() =~= pairs_view(t).dom().insert(last)) by {
            assert forall|k: Seq<char>| pairs_view(s).dom().contains(k) implies pairs_view(
                t,
            ).dom().insert(last).contains(k) by {
                let i = pairs_index(s, k);
                if i < t.len() {
                    assert(t[i] == s[i]);
                    assert(pairs_has(t, k));
                }
            }
            assert forall|k: Seq<char>| pairs_view(t).dom().insert(last).contains(k) implies pairs_view(
                s,
            ).dom().contains(k) by {
                if k == last {
                    assert(s[s.len() - 1].0@ == k);
                } else {
                    let i = pairs_index(t, k);
                    assert(t[i] == s[i]);
                }
            }
        }
        assert(!pairs_view(t).dom().contains(last)) by {
            if pairs_view(t).dom().contains(last) {
                let i = pairs_index(t, last);
                assert(t[i] == s[i]);
                assert(s[i].0@ == s[s.len() - 1].0@);
            }
        }
    }
}

/// A map from strings to values.
pub struct StrMap<V> {
    entries: Vec<(String, V)>,
}

impl<V> View for StrMap<V> {
    type V = Map<Seq<char>, V>;

    open spec fn view(&self) -> Map<Seq<char>, V> {
        pairs_view(self.pairs())
    }
}

impl<V> StrMap<V> {
    /// The entries, in storage order.
    pub closed spec fn pairs(&self) -> Seq<(String, V)> {
        self.entries@
    }

    /// Keys are pairwise distinct.
    pub open spec fn wf(&self) -> bool {
        pairs_distinct(self.pairs())
    }

    /// An empty map.
    pub fn new() -> (m: Self)
        ensures
            m.wf(),
            m.pairs().len() == 0,
            m@ == Map::<Seq<char>, V>::empty(),
    {
        let m = StrMap { entries: Vec::new() };
        assert(m@ =~= Map::<Seq<char>, V>::empty());
        m
    }

    /// Number of entries.
    pub fn len(&self) -> (n: usize)
        requires
            self.wf(),
        ensures
            n == self.pairs().len(),
            n == self@.dom().len(),
            self@.dom().finite(),
    {
        proof {
            lemma_pairs_len(self.pairs());
        }
        self.entries.len()
    }

    /// Key of entry `i`.
    pub fn key_at(&self, i: usize) -> (k: &String)
        requires
            i < self.pairs().len(),
        ensures
            *k == self.pairs()[i as int].0,
    {
        &self.entries[i].0
    }

    /// Value of entry `i`.
    pub fn value_at(&self, i: usize) -> (v: &V)
        requires
            i < self.pairs().len(),
        ensures
            *v == self.pairs()[i as int].1,
    {
        &self.entries[i].1
    }

    /// Position of the entry whose key is `key`, if any.
    pub fn find(&self, key: &str) -> (r: Option<usize>)
        requires
            self.wf(),
        ensures
            match r {
                Some(i) => i < self.pairs().len() && self.pairs()[i as int].0@ == key@,
                None => !self@.contains_key(key@),
            },
    {
        let mut i: usize = 0;
        while i < self.entries.len()
            invariant
                i <= self.entries@.len(),
                self.entries@ == self.pairs(),
                forall|j: int| 0 <= j < i ==> #[trigger] self.entries@[j].0@ != key@,
            decreases self.entries@.len() - i,
        {
            if str_eq(self.entries[i].0.as_str(), key) {
                return Some(i);
            }
            i = i + 1;
        }
        None
    }

    /// The value stored under `key`.
    pub fn get(&self, key: &str) -> (r: Option<&V>)
        requires
            self.wf(),
        ensures
            match r {
                Some(v) => self@.contains_key(key@) && *v == self@[key@],
                None => !self@.contains_key(key@),
            },
    {
        match self.find(key) {
            Some(i) => {
                proof {
                    lemma_pairs_at(self.pairs(), i as int);
                }
                Some(&self.entries[i].1)
            },
            None => None,
        }
    }

    /// Whether `key` is present.
    pub fn contains_key(&self, key: &str) -> (r: bool)
        requires
            self.wf(),
        ensures
            r == self@.contains_key(key@),
    {
        match self.find(key) {
            Some(i) => {
                proof {
                    lemma_pairs_at(self.pairs(), i as int);
                }
                true
            },
            None => false,
        }
    }

    /// Sets the value under `key`, replacing any earlier one.
    pub fn insert(&mut self, key: String, value: V)
        requires
            old(self).wf(),
        ensures
            final(self).wf(),
            final(self)@ == old(self)@.insert(key@, value),
            old(self)@.contains_key(key@) ==> final(self).pairs().len() == old(self).pairs().len()
                && forall|j: int|
                0 <= j < old(self).pairs().len() ==> #[trigger] final(self).pairs()[j].0@ == old(
                    self,
                ).pairs()[j].0@,
    {
        let ghost k = key@;
        match self.find(key.as_str()) {
            Some(i) => {
                let ghost s0 = self.entries@;
                self.entries.set(i, (key, value));
                proof {
                    let s = self.entries@;
                    assert(s == s0.update(i as int, (s[i as int].0, value)));
                    assert(pairs_distinct(s)) by {
                        assert forall|a: int, b: int|
                            0 <= a < s.len() && 0 <= b < s.len() && a != b implies #[trigger] s[a].0@
                            != #[trigger] s[b].0@ by {
                            if a != i && b != i {
                                assert(s[a] == s0[a] && s[b] == s0[b]);
                            } else if a == i {
                                assert(s[b] == s0[b]);
                            } else {
                                assert(s[a] == s0[a]);
                            }
                        }
                    }
                    self.lemma_insert_view(s0, i as int, k, value);
                }
            },
            None => {
                let ghost s0 = self.entries@;
                self.entries.push((key, value));
                proof {
                    let s = self.entries@;
                    assert(pairs_distinct(s)) by {
                        assert forall|a: int, b: int|
                            0 <= a < s.len() && 0 <= b < s.len() && a != b implies #[trigger] s[a].0@
                            != #[trigger] s[b].0@ by {
                            if a < s0.len() && b < s0.len() {
                                assert(s[a] == s0[a] && s[b] == s0[b]);
                            } else if a < s0.len() {
                                assert(s[a] == s0[a]);
                                assert(pairs_has(s0, s[a].0@));
                            } else {
                                assert(s[b] == s0[b]);
                                assert(pairs_has(s0, s[b].0@));
                            }
                        }
                    }
                    assert(pairs_view(s) =~= pairs_view(s0).insert(k, value)) by {
                        assert forall|x: Seq<char>| #[trigger] pairs_view(s).contains_key(x)
                            <==> pairs_view(s0).insert(k, value).contains_key(x) by {
                            if pairs_view(s0).contains_key(x) {
                                let j = pairs_index(s0, x);
                                assert(s[j] == s0[j]);
                            }
                            if pairs_view(s).contains_key(x) && x != k {
                                let j = pairs_index(s, x);
                                if j < s0.len() {
                                    assert(s[j] == s0[j]);
                                }
                            }
                            if x == k {
                                assert(s[s0.len() as int].0@ == k);
                            }
                        }
                        assert forall|x: Seq<char>| #[trigger] pairs_view(s).contains_key(x)
                            implies pairs_view(s)[x] == pairs_view(s0).insert(k, value)[x] by {
                            let j = pairs_index(s, x);
                            lemma_pairs_at(s, j);
                            if j < s0.len() {
                                assert(s[j] == s0[j]);
                                lemma_pairs_at(s0, j);
                            }
                        }
                    }
                }
            },
        }
    }

    proof fn lemma_insert_view(&self, s0: Seq<(String, V)>, i: int, k: Seq<char>, value: V)
        requires
            pairs_distinct(s0),
            pairs_distinct(self.pairs()),
            0 <= i < s0.len(),
            s0[i].0@ == k,
            self.pairs().len() == s0.len(),
            self.pairs()[i].0@ == k,
            self.pairs()[i].1 == value,
            forall|j: int| 0 <= j < s0.len() && j != i ==> self.pairs()[j] == s0[j],
        ensures
            self@ == pairs_view(s0).insert(k, value),
    {
        let s = self.pairs();
        assert(pairs_view(s) =~= pairs_view(s0).insert(k, value)) by {
            assert forall|x: Seq<char>| #[trigger] pairs_view(s).contains_key(x)
                <==> pairs_view(s0).insert(k, value).contains_key(x) by {
                if pairs_view(s0).contains_key(x) {
                    let j = pairs_index(s0, x);
                    if j != i {
                        assert(s[j] == s0[j]);
                    }
                }
                if pairs_view(s).contains_key(x) {
                    let j = pairs_index(s, x);
                    if j != i {
                        assert(s[j] == s0[j]);
                    }
                }
                if x == k {
                    assert(s[i].0@ == k);
                }
            }
            assert forall|x: Seq<char>| #[trigger] pairs_view(s).contains_key(x) implies pairs_view(
                s,
            )[x] == pairs_view(s0).insert(k, value)[x] by {
                let j = pairs_index(s, x);
                lemma_pairs_at(s, j);
                if j != i {
                    assert(s[j] == s0[j]);
                    lemma_pairs_at(s0, j);
                }
            }
        }
    }

    /// Sets the value under `key` in a map whose keys are kept in
    /// increasing order; a new key goes where it keeps them so.
    pub fn insert_sorted(&mut self, key: String, value: V)
        requires
            old(self).wf(),
            pairs_sorted(old(self).pairs()),
        ensures
            final(self).wf(),
            pairs_sorted(final(self).pairs()),
            final(self)@ == old(self)@.insert(key@, value),
    {
        let ghost k = key@;
        let ghost s0 = self.entries@;
        if self.contains_key(key.as_str()) {
            self.insert(key, value);
            proof {
                let s = self.entries@;
                assert forall|i: int, j: int| 0 <= i < j < s.len() implies char_seq_lt(
                    #[trigger] s[i].0@,
                    #[trigger] s[j].0@,
                ) by {
                    assert(s[i].0@ == s0[i].0@);
                    assert(s[j].0@ == s0[j].0@);
                }
            }
            return;
        }
        proof {
            assert forall|m: int| 0 <= m < s0.len() implies #[trigger] s0[m].0@ != k by {
                lemma_pairs_at(s0, m);
            }
        }
        let n = self.entries.len();
        let mut i: usize = 0;
        let mut going = true;
        while going && i < n
            invariant
                self.entries@ == s0,
                k == key@,
                n == s0.len(),
                i <= n,
                forall|m: int| 0 <= m < i ==> char_seq_lt(#[trigger] s0[m].0@, k),
                !going ==> i < n && !char_seq_lt(s0[i as int].0@, k),
            decreases n - i + if going { 1int } else { 0int },
        {
            if str_lt(self.entries[i].0.as_str(), key.as_str()) {
                i = i + 1;
            } else {
                going = false;
            }
        }
        proof {
            if i < n {
                assert(s0[i as int].0@ != k);
                lemma_char_seq_lt_total(s0[i as int].0@, k);
            }
        }
        self.entries.insert(i, (key, value));
        proof {
            let s = self.entries@;
            let j = i as int;
            assert(s =~= s0.insert(j, s[j]));
            assert(s[j].0@ == k && s[j].1 == value);
            // Everything after the new key is larger than it.
            assert forall|m: int| j <= m < s0.len() implies char_seq_lt(k, #[trigger] s0[m].0@) by {
                if m > j {
                    lemma_char_seq_lt_transitive(k, s0[j].0@, s0[m].0@);
                }
            }
            assert forall|a: int, b: int| 0 <= a < b < s.len() implies char_seq_lt(
                #[trigger] s[a].0@,
                #[trigger] s[b].0@,
            ) by {
                if b < j {
                    assert(s[a] == s0[a] && s[b] == s0[b]);
                } else if b == j {
                    assert(s[a] == s0[a]);
                } else if a < j {
                    assert(s[a] == s0[a] && s[b] == s0[b - 1]);
                    lemma_char_seq_lt_transitive(s0[a].0@, k, s0[b - 1].0@);
                } else if a == j {
                    assert(s[b] == s0[b - 1]);
                } else {
                    assert(s[a] == s0[a - 1] && s[b] == s0[b - 1]);
                }
            }
            lemma_sorted_distinct(s);
            assert(pairs_view(s) =~= pairs_view(s0).insert(k, value)) by {
                assert forall|x: Seq<char>| #[trigger] pairs_view(s).contains_key(x)
                    <==> pairs_view(s0).insert(k, value).contains_key(x) by {
                    if pairs_view(s0).contains_key(x) {
                        let q = pairs_index(s0, x);
                        if q < j {
                            assert(s[q] == s0[q]);
                        } else {
                            assert(s[q + 1] == s0[q]);
                        }
                    }
                    if pairs_view(s).contains_key(x) && x != k {
                        let q = pairs_index(s, x);
                        if q < j {
                            assert(s[q] == s0[q]);
                        } else if q > j {
                            assert(s[q] == s0[q - 1]);
                        }
                    }
                    if x == k {
                        assert(s[j].0@ == k);
                    }
                }
                assert forall|x: Seq<char>| #[trigger] pairs_view(s).contains_key(x)
                    implies pairs_view(s)[x] == pairs_view(s0).insert(k, value)[x] by {
                    let q = pairs_index(s, x);
                    lemma_pairs_at(s, q);
                    if q < j {
                        assert(s[q] == s0[q]);
                        lemma_pairs_at(s0, q);
                    } else if q > j {
                        assert(s[q] == s0[q - 1]);
                        lemma_pairs_at(s0, q - 1);
                    }
                }
            }
        }
    }

    /// A copy of the map.
    pub fn copy(&self) -> (m: Self)
        where V: Copy
        ensures
            m.pairs() == self.pairs(),
    {
        let mut entries: Vec<(String, V)> = Vec::new();
        let mut i: usize = 0;
        while i < self.entries.len()
            invariant
                i <= self.entries@.len(),
                self.entries@ == self.pairs(),
                entries@.len() == i,
                forall|j: int| 0 <= j < i ==> #[trigger] entries@[j] == self.entries@[j],
            decreases self.entries@.len() - i,
        {
            let k = self.entries[i].0.clone();
            let v = self.entries[i].1;
            entries.push((k, v));
            i = i + 1;
        }
        assert(entries@ =~= self.entries@);
        StrMap { entries }
    }

    /// Removes the entry under `key`, returning its value.
    pub fn remove(&mut self, key: &str) -> (r: Option<V>)
        requires
            old(self).wf(),
        ensures
            final(self).wf(),
            final(self)@ == old(self)@.remove(key@),
            match r {
                Some(v) => old(self)@.contains_key(key@) && v == old(self)@[key@],
                None => !old(self)@.contains_key(key@),
            },
    {
        match self.find(key) {
            Some(i) => {
                let ghost s0 = self.entries@;
                proof {
                    lemma_pairs_at(s0, i as int);
                }
                let (_, v) = self.entries.remove(i);
                proof {
                    let s = self.entries@;
                    assert(s =~= s0.remove(i as int));
                    assert forall|a: int| 0 <= a < s.len() implies #[trigger] s[a] == (if a < i {
                        s0[a]
                    } else {
                        s0[a + 1]
                    }) by {}
                    assert(pairs_distinct(s)) by {
                        assert forall|a: int, b: int|
                            0 <= a < s.len() && 0 <= b < s.len() && a != b implies #[trigger] s[a].0@
                            != #[trigger] s[b].0@ by {
                            let a0 = if a < i { a } else { a + 1 };
                            let b0 = if b < i { b } else { b + 1 };
                            assert(s[a] == s0[a0] && s[b] == s0[b0]);
                        }
                    }
                    assert(pairs_view(s) =~= pairs_view(s0).remove(key@)) by {
                        assert forall|x: Seq<char>| #[trigger] pairs_view(s).contains_key(x)
                            <==> pairs_view(s0).remove(key@).contains_key(x) by {
                            if pairs_view(s).contains_key(x) {
                                let j = pairs_index(s, x);
                                let j0 = if j < i { j } else { j + 1 };
                                assert(s[j] == s0[j0]);
                                assert(pairs_has(s0, x));
                            }
                            if pairs_view(s0).remove(key@).contains_key(x) {
                                let j0 = pairs_index(s0, x);
                                assert(j0 != i);
                                let j = if j0 < i { j0 } else { j0 - 1 };
                                assert(s[j] == s0[j0]);
                            }
                        }
                        assert forall|x: Seq<char>| #[trigger] pairs_view(s).contains_key(x)
                            implies pairs_view(s)[x] == pairs_view(s0)[x] by {
                            let j = pairs_index(s, x);
                            lemma_pairs_at(s, j);
                            let j0 = if j < i { j } else { j + 1 };
                            assert(s[j] == s0[j0]);
                            lemma_pairs_at(s0, j0);
                        }
                    }
                }
                Some(v)
            },
            None => {
                assert(self@ =~= self@.remove(key@));
                None
            },
        }
    }
}

} // verus!
