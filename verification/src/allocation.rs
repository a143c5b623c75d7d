//! Shard allocation strategies: where to place a new shard, and which
//! shards should migrate to even out the load.

use vstd::prelude::*;
use crate::str_map::{StrMap, lemma_pairs_at, lemma_pairs_key};
use crate::text::{char_seq_lt, str_lt, lemma_char_seq_lt_total};
use crate::sorted::{views, smallest_sorted, insert_bounded, kept_or_outranked, all_before};

verus! {

/// Region `a` (with `ca` shards) is preferred over region `b` (with `cb`
/// shards): fewer shards, ties broken by name.
pub open spec fn region_before(ca: usize, a: Seq<char>, cb: usize, b: Seq<char>) -> bool {
    ca < cb || (ca == cb && char_seq_lt(a, b))
}

/// `k` is the preferred region of `regions`.
pub open spec fn is_least_loaded(regions: Map<Seq<char>, usize>, k: Seq<char>) -> bool {
    &&& regions.contains_key(k)
    &&& forall|j: Seq<char>|
        regions.contains_key(j) && j != k ==> region_before(regions[k], k, #[trigger] regions[j], j)
}

/// `k` is one of the regions holding the most shards.
pub open spec fn is_most_loaded(regions: Map<Seq<char>, usize>, k: Seq<char>) -> bool {
    &&& regions.contains_key(k)
    &&& forall|j: Seq<char>| regions.contains_key(j) ==> #[trigger] regions[j] <= regions[k]
}

/// The gap between some two regions reaches `threshold`.
pub open spec fn spread_reaches(regions: Map<Seq<char>, usize>, threshold: usize) -> bool {
    exists|a: Seq<char>, b: Seq<char>|
        regions.contains_key(a) && regions.contains_key(b) && #[trigger] regions[a]
            >= #[trigger] regions[b] + threshold
}

/// The shards that live on a most-loaded region.
pub open spec fn shards_on_most_loaded(
    current: Map<Seq<char>, String>,
    regions: Map<Seq<char>, usize>,
) -> Set<Seq<char>> {
    Set::new(|s: Seq<char>| current.contains_key(s) && is_most_loaded(regions, current[s]@))
}

/// What a balancing pass hands off: nothing with fewer than two regions or
/// when the loads are close; otherwise the `max_moves` smallest (by name)
/// shards of the most-loaded regions, in increasing order.
pub open spec fn is_rebalance_of(
    out: Seq<Seq<char>>,
    current: Map<Seq<char>, String>,
    regions: Map<Seq<char>, usize>,
    threshold: usize,
    max_moves: usize,
) -> bool {
    if regions.dom().len() < 2 || !spread_reaches(regions, threshold) {
        out.len() == 0
    } else {
        smallest_sorted(out, shards_on_most_loaded(current, regions), max_moves as nat)
    }
}

/// Pluggable shard allocation policy.
pub trait ShardAllocationStrategy: Send + Sync {
    /// Pick a region (region path to current shard count) to host
    /// `shard_id`; `None` when there is none to pick.
    fn allocate_shard(&self, shard_id: &str, regions: &StrMap<usize>) -> (r: Option<String>)
        requires
            regions.wf(),
    ;

    /// Shard ids that should migrate, given the shard-to-region table and
    /// the per-region shard counts.
    fn rebalance(&self, current_allocations: &StrMap<String>, regions: &StrMap<usize>) -> (r: Vec<
        String,
    >)
        requires
            current_allocations.wf(),
            regions.wf(),
    ;
}

/// Places new shards on the region with the fewest shards, ties broken by
/// name; rebalances when the most- and least-loaded regions differ by at
/// least `rebalance_threshold` shards.
pub struct LeastShardAllocationStrategy {
    /// Migrate at most this many shards per rebalance call.
    pub max_simultaneous_rebalance: usize,
    /// Rebalance only if `max_count - min_count >= rebalance_threshold`.
    pub rebalance_threshold: usize,
}

impl Default for LeastShardAllocationStrategy {
    fn default() -> (s: Self)
        ensures
            s.max_simultaneous_rebalance == 3,
            s.rebalance_threshold == 1,
    {
        LeastShardAllocationStrategy { max_simultaneous_rebalance: 3, rebalance_threshold: 1 }
    }
}

impl ShardAllocationStrategy for LeastShardAllocationStrategy {
    fn allocate_shard(&self, shard_id: &str, regions: &StrMap<usize>) -> (r: Option<String>)
        ensures
            match r {
                Some(k) => is_least_loaded(regions@, k@),
                None => regions@.dom().len() == 0,
            },
    {
        least_loaded_region(regions)
    }

    fn rebalance(&self, current_allocations: &StrMap<String>, regions: &StrMap<usize>) -> (r: Vec<
        String,
    >)
        ensures
            is_rebalance_of(
                views(r@),
                current_allocations@,
                regions@,
                self.rebalance_threshold,
                self.max_simultaneous_rebalance,
            ),
    {
        shards_to_hand_off(
            current_allocations,
            regions,
            self.rebalance_threshold,
            self.max_simultaneous_rebalance,
        )
    }
}

/// The region with the fewest shards, ties broken by name.
fn least_loaded_region(regions: &StrMap<usize>) -> (r: Option<String>)
    requires
        regions.wf(),
    ensures
        match r {
            Some(k) => is_least_loaded(regions@, k@),
            None => regions@.dom().len() == 0,
        },
{
    let n = regions.len();
    if n == 0 {
        return None;
    }
    let mut best: usize = 0;
    let mut i: usize = 1;
    proof {
        lemma_pairs_at(regions.pairs(), 0);
    }
    while i < n
        invariant
            regions.wf(),
            n == regions.pairs().len(),
            1 <= i <= n,
            best < i,
            forall|j: int|
                0 <= j < i && j != best ==> region_before(
                    regions.pairs()[best as int].1,
                    regions.pairs()[best as int].0@,
                    #[trigger] regions.pairs()[j].1,
                    regions.pairs()[j].0@,
                ),
        decreases n - i,
    {
        let cb = *regions.value_at(best);
        let ci = *regions.value_at(i);
        let before = ci < cb || (ci == cb && str_lt(
            regions.key_at(i).as_str(),
            regions.key_at(best).as_str(),
        ));
        proof {
            let p = regions.pairs();
            assert(p[i as int].0@ != p[best as int].0@);
            lemma_char_seq_lt_total(p[i as int].0@, p[best as int].0@);
        }
        if before {
            proof {
                let p = regions.pairs();
                assert forall|j: int| 0 <= j < i + 1 && j != i implies region_before(
                    p[i as int].1,
                    p[i as int].0@,
                    #[trigger] p[j].1,
                    p[j].0@,
                ) by {
                    if j != best {
                        assert(region_before(p[best as int].1, p[best as int].0@, p[j].1, p[j].0@));
                        if p[i as int].1 == p[j].1 {
                            crate::text::lemma_char_seq_lt_transitive(
                                p[i as int].0@,
                                p[best as int].0@,
                                p[j].0@,
                            );
                        }
                    }
                }
            }
            best = i;
        }
        i = i + 1;
    }
    proof {
        let p = regions.pairs();
        lemma_pairs_at(p, best as int);
        assert forall|k: Seq<char>|
            regions@.contains_key(k) && k != p[best as int].0@ implies region_before(
            regions@[p[best as int].0@],
            p[best as int].0@,
            #[trigger] regions@[k],
            k,
        ) by {
            lemma_pairs_key(p, k);
            let j = crate::str_map::pairs_index(p, k);
            assert(j != best);
        }
    }
    Some(regions.key_at(best).clone())
}

/// The largest and smallest shard counts of a non-empty region table.
fn count_bounds(regions: &StrMap<usize>) -> (r: (usize, usize))
    requires
        regions.wf(),
        regions.pairs().len() > 0,
    ensures
        exists|k: Seq<char>| regions@.contains_key(k) && #[trigger] regions@[k] == r.0,
        exists|k: Seq<char>| regions@.contains_key(k) && #[trigger] regions@[k] == r.1,
        forall|k: Seq<char>|
            regions@.contains_key(k) ==> r.1 <= #[trigger] regions@[k] && regions@[k] <= r.0,
{
    let n = regions.len();
    let mut hi = *regions.value_at(0);
    let mut lo = hi;
    let mut hi_at: usize = 0;
    let mut lo_at: usize = 0;
    let mut i: usize = 1;
    while i < n
        invariant
            regions.wf(),
            n == regions.pairs().len(),
            1 <= i <= n,
            hi_at < i,
            lo_at < i,
            regions.pairs()[hi_at as int].1 == hi,
            regions.pairs()[lo_at as int].1 == lo,
            forall|j: int| 0 <= j < i ==> lo <= #[trigger] regions.pairs()[j].1 <= hi,
        decreases n - i,
    {
        let c = *regions.value_at(i);
        if c > hi {
            hi = c;
            hi_at = i;
        }
        if c < lo {
            lo = c;
            lo_at = i;
        }
        i = i + 1;
    }
    proof {
        let p = regions.pairs();
        lemma_pairs_at(p, hi_at as int);
        lemma_pairs_at(p, lo_at as int);
        assert forall|k: Seq<char>| regions@.contains_key(k) implies lo <= #[trigger] regions@[k]
            && regions@[k] <= hi by {
            lemma_pairs_key(p, k);
        }
    }
    (hi, lo)
}

/// The shards to hand off under a least-shard policy with the given
/// threshold and batch size.
fn shards_to_hand_off(
    current: &StrMap<String>,
    regions: &StrMap<usize>,
    threshold: usize,
    max_moves: usize,
) -> (r: Vec<String>)
    requires
        current.wf(),
        regions.wf(),
    ensures
        is_rebalance_of(views(r@), current@, regions@, threshold, max_moves),
{
    let nr = regions.len();
    if nr < 2 {
        return Vec::new();
    }
    let (max, min) = count_bounds(regions);
    if max - min < threshold {
        proof {
            assert forall|a: Seq<char>, b: Seq<char>|
                regions@.contains_key(a) && regions@.contains_key(b) implies !(#[trigger] regions@[a]
                >= #[trigger] regions@[b] + threshold) by {}
        }
        return Vec::new();
    }
    proof {
        let a = choose|k: Seq<char>| regions@.contains_key(k) && #[trigger] regions@[k] == max;
        let b = choose|k: Seq<char>| regions@.contains_key(k) && #[trigger] regions@[k] == min;
        assert(regions@[a] >= regions@[b] + threshold);
    }
    let ghost cands = shards_on_most_loaded(current@, regions@);
    let ghost p = current.pairs();
    let n = current.len();
    let mut out: Vec<String> = Vec::new();
    let mut i: usize = 0;
    while i < n
        invariant
            current.wf(),
            regions.wf(),
            p == current.pairs(),
            n == p.len(),
            i <= n,
            forall|k: Seq<char>|
                regions@.contains_key(k) ==> (#[trigger] regions@[k] == max <==> is_most_loaded(
                    regions@,
                    k,
                )),
            smallest_sorted(
                views(out@),
                Set::new(
                    |s: Seq<char>|
                        exists|j: int| 0 <= j < i && #[trigger] p[j].0@ == s && cands.contains(s),
                ),
                max_moves as nat,
            ),
            cands == shards_on_most_loaded(current@, regions@),
        decreases n - i,
    {
        let ghost before = Set::new(
            |s: Seq<char>| exists|j: int| 0 <= j < i && #[trigger] p[j].0@ == s && cands.contains(s),
        );
        let ghost after = Set::new(
            |s: Seq<char>|
                exists|j: int| 0 <= j < i + 1 && #[trigger] p[j].0@ == s && cands.contains(s),
        );
        let shard = current.key_at(i);
        let region = current.value_at(i);
        proof {
            lemma_pairs_at(p, i as int);
        }
        let on_max = match regions.get(region.as_str()) {
            Some(c) => *c == max,
            None => false,
        };
        if on_max {
            proof {
                assert(cands.contains(p[i as int].0@));
                assert(!views(out@).contains(shard@)) by {
                    if views(out@).contains(shard@) {
                        let q = choose|q: int| 0 <= q < views(out@).len() && views(out@)[q] == shard@;
                        assert(before.contains(views(out@)[q]));
                        let j = choose|j: int|
                            0 <= j < i && #[trigger] p[j].0@ == views(out@)[q] && cands.contains(
                                views(out@)[q],
                            );
                        assert(p[j].0@ == p[i as int].0@);
                    }
                }
            }
            let ghost old_out = views(out@);
            insert_bounded(&mut out, shard.clone(), max_moves);
            proof {
                let o = views(out@);
                assert forall|q: int| 0 <= q < o.len() implies after.contains(#[trigger] o[q]) by {
                    if old_out.contains(o[q]) {
                        let q0 = choose|q0: int| 0 <= q0 < old_out.len() && old_out[q0] == o[q];
                        assert(before.contains(old_out[q0]));
                        let j = choose|j: int|
                            0 <= j < i && #[trigger] p[j].0@ == old_out[q0] && cands.contains(
                                old_out[q0],
                            );
                        assert(p[j].0@ == o[q]);
                    } else {
                        assert(p[i as int].0@ == o[q]);
                    }
                }
                assert forall|x: Seq<char>| after.contains(x) implies #[trigger] kept_or_outranked(
                    o,
                    x,
                    max_moves as nat,
                ) by {
                    let j = choose|j: int| 0 <= j < i + 1 && #[trigger] p[j].0@ == x && cands.contains(x);
                    if j < i {
                        assert(before.contains(x));
                        assert(kept_or_outranked(old_out, x, max_moves as nat));
                        if !old_out.contains(x) {
                            assert(all_before(old_out, x));
                            assert(all_before(o, x));
                        }
                    } else {
                        assert(x == shard@);
                    }
                }
            }
        } else {
            proof {
                assert(!cands.contains(p[i as int].0@)) by {
                    if cands.contains(p[i as int].0@) {
                        assert(is_most_loaded(regions@, current@[p[i as int].0@]@));
                    }
                }
                assert(after =~= before) by {
                    assert forall|x: Seq<char>| after.contains(x) implies before.contains(x) by {
                        let j = choose|j: int|
                            0 <= j < i + 1 && #[trigger] p[j].0@ == x && cands.contains(x);
                        assert(j != i);
                    }
                }
            }
        }
        i = i + 1;
    }
    proof {
        let fin = Set::new(
            |s: Seq<char>| exists|j: int| 0 <= j < n && #[trigger] p[j].0@ == s && cands.contains(s),
        );
        assert(fin =~= cands) by {
            assert forall|s: Seq<char>| cands.contains(s) implies fin.contains(s) by {
                lemma_pairs_key(p, s);
                let j = crate::str_map::pairs_index(p, s);
                assert(p[j].0@ == s);
            }
        }
    }
    out
}

/// Pins every shard to one fixed region.
pub struct PinnedAllocationStrategy {
    pub region: String,
}

impl ShardAllocationStrategy for PinnedAllocationStrategy {
    fn allocate_shard(&self, shard_id: &str, regions: &StrMap<usize>) -> (r: Option<String>)
        ensures
            r == Some(self.region),
    {
        Some(self.region.clone())
    }

    fn rebalance(&self, current_allocations: &StrMap<String>, regions: &StrMap<usize>) -> (r: Vec<
        String,
    >)
        ensures
            r@.len() == 0,
    {
        Vec::new()
    }
}

} // verus!
