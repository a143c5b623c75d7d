//! Vector clocks: per-node event counters with a causal order.

use vstd::prelude::*;
use crate::str_map::{pairs_sorted, StrMap};

verus! {

/// The counter of `node` in a clock model; absent nodes count zero.
pub open spec fn count_of(m: Map<Seq<char>, u64>, node: Seq<char>) -> nat {
    if m.contains_key(node) {
        m[node] as nat
    } else {
        0
    }
}

/// Every counter of `a` is at most the matching counter of `b`.
pub open spec fn clock_le(a: Map<Seq<char>, u64>, b: Map<Seq<char>, u64>) -> bool {
    forall|k: Seq<char>| #[trigger] count_of(a, k) <= count_of(b, k)
}

/// How two clocks relate causally.
#[derive(Debug, Clone, Copy, PartialEq, Eq, Structural)]
#[non_exhaustive]
pub enum VectorRelation {
    Before,
    After,
    Same,
    Concurrent,
}

/// The relation of clock `a` to clock `b`.
pub open spec fn relation_of(a: Map<Seq<char>, u64>, b: Map<Seq<char>, u64>) -> VectorRelation {
    if clock_le(a, b) && clock_le(b, a) {
        VectorRelation::Same
    } else if clock_le(a, b) {
        VectorRelation::Before
    } else if clock_le(b, a) {
        VectorRelation::After
    } else {
        VectorRelation::Concurrent
    }
}

/// The pointwise maximum of two clocks: the union of their nodes, each with
/// the larger counter.
pub open spec fn merged(a: Map<Seq<char>, u64>, b: Map<Seq<char>, u64>) -> Map<Seq<char>, u64> {
    Map::new(
        |k: Seq<char>| a.contains_key(k) || b.contains_key(k),
        |k: Seq<char>|
            if count_of(a, k) >= count_of(b, k) {
                count_of(a, k) as u64
            } else {
                count_of(b, k) as u64
            },
    )
}

/// A vector clock: a counter per node name.
pub struct VectorClock {
    versions: StrMap<u64>,
}

impl View for VectorClock {
    type V = Map<Seq<char>, u64>;

    closed spec fn view(&self) -> Map<Seq<char>, u64> {
        self.versions@
    }
}

impl VectorClock {
    /// The representation invariant.
    pub closed spec fn wf(&self) -> bool {
        &&& self.versions.wf()
        &&& pairs_sorted(self.versions.pairs())
    }

    /// The empty clock.
    pub fn new() -> (c: Self)
        ensures
            c.wf(),
            c@ == Map::<Seq<char>, u64>::empty(),
    {
        VectorClock { versions: StrMap::new() }
    }

    /// The per-node counters, their entries in increasing order of node
    /// name.
    pub fn versions(&self) -> (m: &StrMap<u64>)
        requires
            self.wf(),
        ensures
            m.wf(),
            m@ == self@,
            pairs_sorted(m.pairs()),
    {
        &self.versions
    }

    /// The counter of `node`, zero when the node was never ticked.
    pub fn version_of(&self, node: &str) -> (v: u64)
        requires
            self.wf(),
        ensures
            v == count_of(self@, node@),
    {
        match self.versions.get(node) {
            Some(v) => *v,
            None => 0,
        }
    }

    /// Records one more event of `node`.
    pub fn tick(&mut self, node: &str)
        requires
            old(self).wf(),
            count_of(old(self)@, node@) < u64::MAX,
        ensures
            final(self).wf(),
            final(self)@ == old(self)@.insert(node@, (count_of(old(self)@, node@) + 1) as u64),
    {
        let cur = self.version_of(node);
        self.versions.insert_sorted(String::from_str(node), cur + 1);
    }

    /// The pointwise maximum of `self` and `other`.
    pub fn merge(&self, other: &Self) -> (out: Self)
        requires
            self.wf(),
            other.wf(),
        ensures
            out.wf(),
            out@ == merged(self@, other@),
    {
        let mut out = VectorClock { versions: self.versions.copy() };
        let n = other.versions.len();
        let mut i: usize = 0;
        while i < n
            invariant
                out.wf(),
                other.wf(),
                self.wf(),
                n == other.versions.pairs().len(),
                i <= n,
                forall|k: Seq<char>| #[trigger]
                    out@.contains_key(k) <==> (self@.contains_key(k) || exists|j: int|
                        0 <= j < i && other.versions.pairs()[j].0@ == k),
                forall|k: Seq<char>| #[trigger]
                    out@.contains_key(k) ==> out@[k] == (if (exists|j: int|
                        0 <= j < i && other.versions.pairs()[j].0@ == k) && count_of(other@, k)
                        > count_of(self@, k) {
                        count_of(other@, k)
                    } else {
                        count_of(self@, k)
                    }),
            decreases n - i,
        {
            let k = other.versions.key_at(i);
            let v = *other.versions.value_at(i);
            proof {
                crate::str_map::lemma_pairs_at(other.versions.pairs(), i as int);
            }
            let cur = out.version_of(k.as_str());
            let ghost before = out@;
            if v > cur {
                out.versions.insert_sorted(k.clone(), v);
            } else {
                out.versions.insert_sorted(k.clone(), cur);
            }
            proof {
                let kk = other.versions.pairs()[i as int].0@;
                assert forall|x: Seq<char>| #[trigger] out@.contains_key(x) <==> (self@.contains_key(x)
                    || exists|j: int| 0 <= j < i + 1 && other.versions.pairs()[j].0@ == x) by {
                    if x == kk {
                        assert(other.versions.pairs()[i as int].0@ == x);
                    } else if exists|j: int| 0 <= j < i + 1 && other.versions.pairs()[j].0@ == x {
                        let j = choose|j: int| 0 <= j < i + 1 && other.versions.pairs()[j].0@ == x;
                        assert(j != i);
                    }
                }
                assert forall|x: Seq<char>| #[trigger] out@.contains_key(x) implies out@[x] == (if (exists|
                    j: int,
                | 0 <= j < i + 1 && other.versions.pairs()[j].0@ == x) && count_of(other@, x)
                    > count_of(self@, x) {
                    count_of(other@, x)
                } else {
                    count_of(self@, x)
                }) by {
                    if x == kk {
                        assert(other.versions.pairs()[i as int].0@ == x);
                        if before.contains_key(x) {
                            if exists|j: int| 0 <= j < i && other.versions.pairs()[j].0@ == x {
                                let j = choose|j: int|
                                    0 <= j < i && other.versions.pairs()[j].0@ == x;
                                assert(other.versions.pairs()[j].0@ == other.versions.pairs()[i as int].0@);
                            }
                        }
                    } else {
                        if exists|j: int| 0 <= j < i + 1 && other.versions.pairs()[j].0@ == x {
                            let j = choose|j: int| 0 <= j < i + 1 && other.versions.pairs()[j].0@ == x;
                            assert(j != i);
                        }
                    }
                }
            }
            i = i + 1;
        }
        proof {
            assert forall|k: Seq<char>| other@.contains_key(k) implies exists|j: int|
                0 <= j < n && other.versions.pairs()[j].0@ == k by {
                crate::str_map::lemma_pairs_key(other.versions.pairs(), k);
            }
            assert(out@ =~= merged(self@, other@));
        }
        out
    }

    /// The causal relation of `self` to `other`.
    pub fn compare(&self, other: &Self) -> (r: VectorRelation)
        requires
            self.wf(),
            other.wf(),
        ensures
            r == relation_of(self@, other@),
    {
        let (a1, b1) = dominance(self, other);
        let (b2, a2) = dominance(other, self);
        let a_le = a1 && a2;
        let b_le = b1 && b2;
        proof {
            assert(a_le == clock_le(self@, other@)) by {
                if a_le {
                    assert forall|k: Seq<char>| #[trigger] count_of(self@, k) <= count_of(other@, k) by {
                        if !self@.contains_key(k) && !other@.contains_key(k) {
                        }
                    }
                }
            }
            assert(b_le == clock_le(other@, self@)) by {
                if b_le {
                    assert forall|k: Seq<char>| #[trigger] count_of(other@, k) <= count_of(self@, k) by {
                        if !self@.contains_key(k) && !other@.contains_key(k) {
                        }
                    }
                }
            }
        }
        if a_le && b_le {
            VectorRelation::Same
        } else if a_le {
            VectorRelation::Before
        } else if b_le {
            VectorRelation::After
        } else {
            VectorRelation::Concurrent
        }
    }
}

impl Clone for VectorClock {
    fn clone(&self) -> (c: Self)
        ensures
            self.wf() ==> c.wf(),
            c@ == self@,
    {
        VectorClock { versions: self.versions.copy() }
    }
}

impl Default for VectorClock {
    fn default() -> (c: Self)
        ensures
            c.wf(),
            c@ == Map::<Seq<char>, u64>::empty(),
    {
        VectorClock::new()
    }
}

/// Merging is commutative.
pub proof fn lemma_merge_commutative(a: Map<Seq<char>, u64>, b: Map<Seq<char>, u64>)
    ensures
        merged(a, b) == merged(b, a),
{
    assert(merged(a, b) =~= merged(b, a));
}

/// Merging is associative.
pub proof fn lemma_merge_associative(
    a: Map<Seq<char>, u64>,
    b: Map<Seq<char>, u64>,
    c: Map<Seq<char>, u64>,
)
    ensures
        merged(merged(a, b), c) == merged(a, merged(b, c)),
{
    assert(merged(merged(a, b), c) =~= merged(a, merged(b, c)));
}

/// Merging a clock with itself gives the same clock.
pub proof fn lemma_merge_idempotent(a: Map<Seq<char>, u64>)
    ensures
        merged(a, a) == a,
{
    assert(merged(a, a) =~= a);
}

/// The merge of two clocks is at or after each of them.
pub proof fn lemma_merge_dominates(a: Map<Seq<char>, u64>, b: Map<Seq<char>, u64>)
    ensures
        clock_le(a, merged(a, b)),
        clock_le(b, merged(a, b)),
        relation_of(a, merged(a, b)) == VectorRelation::Before || relation_of(a, merged(a, b))
            == VectorRelation::Same,
{
    assert forall|k: Seq<char>| #[trigger] count_of(a, k) <= count_of(merged(a, b), k) by {}
    assert forall|k: Seq<char>| #[trigger] count_of(b, k) <= count_of(merged(a, b), k) by {}
}

/// Every clock is the same as itself.
pub proof fn lemma_relation_reflexive(a: Map<Seq<char>, u64>)
    ensures
        relation_of(a, a) == VectorRelation::Same,
{
}

/// Comparing in the other direction gives the converse relation.
pub proof fn lemma_relation_converse(a: Map<Seq<char>, u64>, b: Map<Seq<char>, u64>)
    ensures
        relation_of(a, b) == VectorRelation::Before <==> relation_of(b, a) == VectorRelation::After,
        relation_of(a, b) == VectorRelation::Same <==> relation_of(b, a) == VectorRelation::Same,
        relation_of(a, b) == VectorRelation::Concurrent <==> relation_of(b, a)
            == VectorRelation::Concurrent,
{
}

/// "Before" is transitive.
pub proof fn lemma_before_transitive(
    a: Map<Seq<char>, u64>,
    b: Map<Seq<char>, u64>,
    c: Map<Seq<char>, u64>,
)
    requires
        relation_of(a, b) == VectorRelation::Before,
        relation_of(b, c) == VectorRelation::Before,
    ensures
        relation_of(a, c) == VectorRelation::Before,
{
    assert forall|k: Seq<char>| #[trigger] count_of(a, k) <= count_of(c, k) by {
        assert(count_of(a, k) <= count_of(b, k));
        assert(count_of(b, k) <= count_of(c, k));
    }
    let w = choose|k: Seq<char>| !(#[trigger] count_of(b, k) <= count_of(a, k));
    assert(count_of(b, w) <= count_of(c, w));
}

/// Ticking a node moves the clock strictly forward.
pub proof fn lemma_tick_advances(a: Map<Seq<char>, u64>, node: Seq<char>)
    requires
        count_of(a, node) < u64::MAX,
    ensures
        relation_of(a, a.insert(node, (count_of(a, node) + 1) as u64)) == VectorRelation::Before,
{
    let t = a.insert(node, (count_of(a, node) + 1) as u64);
    assert forall|k: Seq<char>| #[trigger] count_of(a, k) <= count_of(t, k) by {}
    assert(!(count_of(t, node) <= count_of(a, node)));
}

/// Over the nodes of `a`: whether `a`'s counters are all at most `b`'s,
/// and whether `b`'s are all at most `a`'s.
fn dominance(a: &VectorClock, b: &VectorClock) -> (r: (bool, bool))
    requires
        a.wf(),
        b.wf(),
    ensures
        r.0 == (forall|k: Seq<char>| a@.contains_key(k) ==> count_of(a@, k) <= count_of(b@, k)),
        r.1 == (forall|k: Seq<char>| a@.contains_key(k) ==> count_of(b@, k) <= count_of(a@, k)),
{
    let n = a.versions.len();
    let mut le = true;
    let mut ge = true;
    let mut i: usize = 0;
    while i < n
        invariant
            a.wf(),
            b.wf(),
            n == a.versions.pairs().len(),
            i <= n,
            le == (forall|j: int| 0 <= j < i ==> count_of(a@, #[trigger] a.versions.pairs()[j].0@)
                <= count_of(b@, a.versions.pairs()[j].0@)),
            ge == (forall|j: int| 0 <= j < i ==> count_of(b@, #[trigger] a.versions.pairs()[j].0@)
                <= count_of(a@, a.versions.pairs()[j].0@)),
        decreases n - i,
    {
        let k = a.versions.key_at(i);
        let x = *a.versions.value_at(i);
        proof {
            crate::str_map::lemma_pairs_at(a.versions.pairs(), i as int);
        }
        let y = b.version_of(k.as_str());
        if x > y {
            le = false;
        }
        if y > x {
            ge = false;
        }
        i = i + 1;
    }
    proof {
        assert forall|k: Seq<char>| a@.contains_key(k) implies exists|j: int|
            0 <= j < n && #[trigger] a.versions.pairs()[j].0@ == k by {
            crate::str_map::lemma_pairs_key(a.versions.pairs(), k);
        }
    }
    (le, ge)
}

} // verus!
