//! Bounded sorted collections of strings.

use vstd::prelude::*;
use crate::str_map::StrMap;
use crate::text::{char_seq_lt, lemma_char_seq_lt_total, lemma_char_seq_lt_transitive, str_lt};

verus! {

/// The character sequences of a sequence of strings.
pub open spec fn views(v: Seq<String>) -> Seq<Seq<char>> {
    v.map_values(|s: String| s@)
}

/// Strictly increasing in the order of `str`.
pub open spec fn strictly_sorted(s: Seq<Seq<char>>) -> bool {
    forall|i: int, j: int| 0 <= i < j < s.len() ==> char_seq_lt(#[trigger] s[i], #[trigger] s[j])
}

/// Every element of `s` comes strictly before `x`.
pub open spec fn all_before(s: Seq<Seq<char>>, x: Seq<char>) -> bool {
    forall|i: int| 0 <= i < s.len() ==> char_seq_lt(#[trigger] s[i], x)
}

/// `x` is kept in `s`, or was left out because `s` is full with smaller
/// elements.
pub open spec fn kept_or_outranked(s: Seq<Seq<char>>, x: Seq<char>, m: nat) -> bool {
    s.contains(x) || (s.len() == m && all_before(s, x))
}

/// `s` is the sorted list of the `m` smallest elements of the set `c`
/// (all of them when `c` has fewer).
pub open spec fn smallest_sorted(s: Seq<Seq<char>>, c: Set<Seq<char>>, m: nat) -> bool {
    &&& strictly_sorted(s)
    &&& s.len() <= m
    &&& forall|i: int| 0 <= i < s.len() ==> c.contains(#[trigger] s[i])
    &&& forall|x: Seq<char>| c.contains(x) ==> #[trigger] kept_or_outranked(s, x, m)
}

/// Inserts `c` into the sorted list `out`, then drops the largest element
/// if the list has grown beyond `m`.
pub fn insert_bounded(out: &mut Vec<String>, c: String, m: usize)
    requires
        strictly_sorted(views(old(out)@)),
        old(out)@.len() <= m,
        !views(old(out)@).contains(c@),
    ensures
        strictly_sorted(views(final(out)@)),
        final(out)@.len() <= m,
        forall|i: int|
            0 <= i < final(out)@.len() ==> #[trigger] views(old(out)@).contains(
                views(final(out)@)[i],
            ) || views(final(out)@)[i] == c@,
        forall|x: Seq<char>|
            views(old(out)@).contains(x) || x == c@ ==> #[trigger] kept_or_outranked(
                views(final(out)@),
                x,
                m as nat,
            ),
        forall|x: Seq<char>|
            old(out)@.len() == m && all_before(views(old(out)@), x) ==> (final(out)@.len() == m
                && #[trigger] all_before(views(final(out)@), x)),
        old(out)@.len() < m ==> final(out)@.len() == old(out)@.len() + 1,
        old(out)@.len() < m ==> forall|x: Seq<char>|
            views(old(out)@).contains(x) || x == c@ ==> #[trigger] views(final(out)@).contains(x),
{
    let ghost o = views(out@);
    let ghost cv = c@;
    let mut p: usize = 0;
    loop
        invariant
            o == views(out@),
            cv == c@,
            p <= out@.len(),
            forall|i: int| 0 <= i < p ==> char_seq_lt(#[trigger] o[i], cv),
        ensures
            p == out@.len() || !char_seq_lt(o[p as int], cv),
        decreases out@.len() - p,
    {
        if p >= out.len() {
            break;
        }
        assert(o[p as int] == out@[p as int]@);
        if !str_lt(out[p].as_str(), c.as_str()) {
            break;
        }
        p = p + 1;
    }
    proof {
        if p < o.len() {
            assert(o[p as int] != cv) by {
                assert(o.contains(o[p as int]));
            }
            lemma_char_seq_lt_total(o[p as int], cv);
            assert forall|i: int| p <= i < o.len() implies char_seq_lt(cv, #[trigger] o[i]) by {
                if i > p {
                    lemma_char_seq_lt_transitive(cv, o[p as int], o[i]);
                }
            }
        }
    }
    out.insert(p, c);
    let ghost n1 = views(out@);
    proof {
        assert(n1 =~= o.insert(p as int, cv));
        assert(strictly_sorted(n1)) by {
            assert forall|i: int, j: int| 0 <= i < j < n1.len() implies char_seq_lt(
                #[trigger] n1[i],
                #[trigger] n1[j],
            ) by {
                if j < p {
                } else if j == p {
                } else if i < p {
                    lemma_char_seq_lt_transitive(o[i], cv, o[j - 1]);
                } else if i == p {
                } else {
                }
            }
        }
    }
    if out.len() > m {
        out.pop();
        proof {
            let n = views(out@);
            assert(n =~= n1.subrange(0, n1.len() - 1));
            let top = n1[n1.len() - 1];
            assert forall|i: int| 0 <= i < n.len() implies char_seq_lt(#[trigger] n[i], top) by {
                assert(n[i] == n1[i]);
            }
            assert forall|x: Seq<char>| o.contains(x) || x == cv implies #[trigger] kept_or_outranked(
                n,
                x,
                m as nat,
            ) by {
                let k = if x == cv {
                    p as int
                } else {
                    let j = choose|j: int| 0 <= j < o.len() && o[j] == x;
                    if j < p {
                        j
                    } else {
                        j + 1
                    }
                };
                assert(n1[k] == x);
                if k < n1.len() - 1 {
                    assert(n[k] == x);
                } else {
                    assert forall|i: int| 0 <= i < n.len() implies char_seq_lt(#[trigger] n[i], x) by {
                        assert(n[i] == n1[i]);
                    }
                }
            }
            assert forall|x: Seq<char>|
                o.len() == m && all_before(o, x) implies (out@.len() == m && #[trigger] all_before(
                n,
                x,
            )) by {
                assert forall|i: int| 0 <= i < n.len() implies char_seq_lt(#[trigger] n[i], x) by {
                    if i < p {
                        assert(n[i] == o[i]);
                    } else if i == p {
                        assert(n[i] == cv);
                        assert(char_seq_lt(o[p as int], x));
                        assert(char_seq_lt(cv, o[p as int]));
                        lemma_char_seq_lt_transitive(cv, o[p as int], x);
                    } else {
                        assert(n[i] == o[i - 1]);
                    }
                }
            }
            assert forall|i: int| 0 <= i < n.len() implies #[trigger] o.contains(n[i]) || n[i]
                == cv by {
                assert(n[i] == n1[i]);
                if i < p {
                    assert(o[i] == n[i]);
                } else if i > p {
                    assert(o[i - 1] == n[i]);
                }
            }
        }
    } else {
        proof {
            let n = n1;
            assert forall|x: Seq<char>| o.contains(x) || x == cv implies #[trigger] n.contains(x) by {
                if x == cv {
                    assert(n[p as int] == x);
                } else {
                    let j = choose|j: int| 0 <= j < o.len() && o[j] == x;
                    if j < p {
                        assert(n[j] == x);
                    } else {
                        assert(n[j + 1] == x);
                    }
                }
            }
            assert forall|x: Seq<char>| o.contains(x) || x == cv implies #[trigger] kept_or_outranked(
                n,
                x,
                m as nat,
            ) by {
                if x == cv {
                    assert(n[p as int] == x);
                } else {
                    let j = choose|j: int| 0 <= j < o.len() && o[j] == x;
                    if j < p {
                        assert(n[j] == x);
                    } else {
                        assert(n[j + 1] == x);
                    }
                }
            }
            assert forall|i: int| 0 <= i < n.len() implies #[trigger] o.contains(n[i]) || n[i]
                == cv by {
                if i < p {
                    assert(o[i] == n[i]);
                } else if i > p {
                    assert(o[i - 1] == n[i]);
                }
            }
        }
    }
}

/// The keys of a map, in increasing order.
pub fn sorted_keys<V>(m: &StrMap<V>) -> (r: Vec<String>)
    requires
        m.wf(),
    ensures
        strictly_sorted(views(r@)),
        forall|x: Seq<char>| #[trigger] views(r@).contains(x) <==> m@.contains_key(x),
        r@.len() == m@.dom().len(),
{
    let n = m.len();
    let mut out: Vec<String> = Vec::new();
    let mut i: usize = 0;
    while i < n
        invariant
            m.wf(),
            n == m.pairs().len(),
            i <= n,
            out@.len() == i,
            strictly_sorted(views(out@)),
            forall|x: Seq<char>| #[trigger] views(out@).contains(x) <==> exists|j: int|
                0 <= j < i && #[trigger] m.pairs()[j].0@ == x,
        decreases n - i,
    {
        let k = m.key_at(i);
        proof {
            if views(out@).contains(k@) {
                let j = choose|j: int| 0 <= j < i && #[trigger] m.pairs()[j].0@ == k@;
                assert(m.pairs()[j].0@ == m.pairs()[i as int].0@);
            }
        }
        let ghost before = views(out@);
        insert_bounded(&mut out, k.clone(), n);
        proof {
            assert forall|x: Seq<char>| #[trigger] views(out@).contains(x) <==> exists|j: int|
                0 <= j < i + 1 && #[trigger] m.pairs()[j].0@ == x by {
                if views(out@).contains(x) {
                    let q = choose|q: int| 0 <= q < views(out@).len() && views(out@)[q] == x;
                    if before.contains(views(out@)[q]) {
                        let j = choose|j: int| 0 <= j < i && #[trigger] m.pairs()[j].0@ == x;
                        assert(m.pairs()[j].0@ == x);
                    } else {
                        assert(m.pairs()[i as int].0@ == x);
                    }
                }
                if exists|j: int| 0 <= j < i + 1 && #[trigger] m.pairs()[j].0@ == x {
                    let j = choose|j: int| 0 <= j < i + 1 && #[trigger] m.pairs()[j].0@ == x;
                    if j < i {
                        assert(before.contains(x));
                    }
                }
            }
        }
        i = i + 1;
    }
    proof {
        crate::str_map::lemma_pairs_len(m.pairs());
        assert forall|x: Seq<char>| #[trigger] views(out@).contains(x) <==> m@.contains_key(x) by {
            if m@.contains_key(x) {
                crate::str_map::lemma_pairs_key(m.pairs(), x);
                let j = crate::str_map::pairs_index(m.pairs(), x);
                assert(m.pairs()[j].0@ == x);
            }
            if views(out@).contains(x) {
                let j = choose|j: int| 0 <= j < n && #[trigger] m.pairs()[j].0@ == x;
                crate::str_map::lemma_pairs_at(m.pairs(), j);
            }
        }
    }
    out
}

} // verus!
