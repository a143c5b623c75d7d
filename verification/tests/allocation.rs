use atomr::allocation::{LeastShardAllocationStrategy, PinnedAllocationStrategy, ShardAllocationStrategy};
use atomr::str_map::StrMap;

fn regions(pairs: &[(&str, usize)]) -> StrMap<usize> {
    let mut m = StrMap::new();
    for (k, v) in pairs {
        m.insert(k.to_string(), *v);
    }
    m
}

fn allocs(pairs: &[(&str, &str)]) -> StrMap<String> {
    let mut m = StrMap::new();
    for (k, v) in pairs {
        m.insert(k.to_string(), v.to_string());
    }
    m
}

#[test]
fn least_shard_picks_emptiest_region() {
    let s = LeastShardAllocationStrategy::default();
    let r = regions(&[("r1", 5), ("r2", 1), ("r3", 3)]);
    assert_eq!(s.allocate_shard("x", &r), Some("r2".into()));
}

#[test]
fn least_shard_picks_no_region_when_empty() {
    let s = LeastShardAllocationStrategy::default();
    let r = regions(&[]);
    assert!(s.allocate_shard("x", &r).is_none());
}

#[test]
fn least_shard_breaks_ties_lexicographically() {
    let s = LeastShardAllocationStrategy::default();
    let r = regions(&[("r2", 1), ("r1", 1)]);
    assert_eq!(s.allocate_shard("x", &r), Some("r1".into()));
}

#[test]
fn rebalance_returns_empty_when_balanced() {
    let s = LeastShardAllocationStrategy::default();
    let r = regions(&[("r1", 3), ("r2", 3)]);
    let a = allocs(&[]);
    assert!(s.rebalance(&a, &r).is_empty());
}

#[test]
fn rebalance_returns_shards_from_loaded_region() {
    let s = LeastShardAllocationStrategy { max_simultaneous_rebalance: 2, rebalance_threshold: 2 };
    let r = regions(&[("r1", 5), ("r2", 1)]);
    let a = allocs(&[
        ("s1", "r1"), ("s2", "r1"), ("s3", "r1"), ("s4", "r1"), ("s5", "r1"),
        ("s6", "r2"),
    ]);
    let out = s.rebalance(&a, &r);
    assert_eq!(out.len(), 2);
    for shard in &out {
        assert_eq!(a.get(shard), Some(&"r1".to_string()));
    }
}

#[test]
fn pinned_always_picks_same_region() {
    let s = PinnedAllocationStrategy { region: "fixed".into() };
    let r = regions(&[("r1", 0), ("r2", 0)]);
    assert_eq!(s.allocate_shard("a", &r), Some("fixed".into()));
    assert_eq!(s.allocate_shard("b", &r), Some("fixed".into()));
}

#[test]
fn rebalance_hands_off_smallest_shard_ids_in_order() {
    let s = LeastShardAllocationStrategy { max_simultaneous_rebalance: 2, rebalance_threshold: 2 };
    let r = regions(&[("r1", 5), ("r2", 1)]);
    let a = allocs(&[("s5", "r1"), ("s3", "r1"), ("s4", "r1"), ("s1", "r1"), ("s2", "r1"), ("s0", "r2")]);
    assert_eq!(s.rebalance(&a, &r), vec!["s1".to_string(), "s2".to_string()]);
}

#[test]
fn rebalance_needs_two_regions() {
    let s = LeastShardAllocationStrategy { max_simultaneous_rebalance: 5, rebalance_threshold: 0 };
    let r = regions(&[("r1", 9)]);
    let a = allocs(&[("s1", "r1")]);
    assert!(s.rebalance(&a, &r).is_empty());
}

#[test]
fn rebalance_takes_shards_of_every_most_loaded_region() {
    let s = LeastShardAllocationStrategy { max_simultaneous_rebalance: 10, rebalance_threshold: 1 };
    let r = regions(&[("a", 3), ("b", 3), ("c", 1)]);
    let a = allocs(&[("x", "b"), ("y", "a"), ("z", "c"), ("w", "gone")]);
    assert_eq!(s.rebalance(&a, &r), vec!["x".to_string(), "y".to_string()]);
}

#[test]
fn rebalance_below_threshold_is_empty() {
    let s = LeastShardAllocationStrategy { max_simultaneous_rebalance: 3, rebalance_threshold: 3 };
    let r = regions(&[("r1", 4), ("r2", 2)]);
    let a = allocs(&[("s1", "r1")]);
    assert!(s.rebalance(&a, &r).is_empty());
}

#[test]
fn least_shard_orders_names_by_code_point() {
    let s = LeastShardAllocationStrategy::default();
    let r = regions(&[("b", 2), ("ab", 2), ("a", 2), ("B", 2)]);
    assert_eq!(s.allocate_shard("x", &r), Some("B".into()));
}

#[test]
fn pinned_never_rebalances() {
    let s = PinnedAllocationStrategy { region: "fixed".into() };
    let r = regions(&[("r1", 10), ("r2", 0)]);
    let a = allocs(&[("s1", "r1")]);
    assert!(s.rebalance(&a, &r).is_empty());
}

#[test]
fn least_shard_defaults() {
    let s = LeastShardAllocationStrategy::default();
    assert_eq!(s.max_simultaneous_rebalance, 3);
    assert_eq!(s.rebalance_threshold, 1);
}
