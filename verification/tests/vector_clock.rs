use atomr::vector_clock::{VectorClock, VectorRelation};

#[test]
fn tick_and_compare() {
    let mut a = VectorClock::new();
    let mut b = VectorClock::new();
    a.tick("A");
    b.tick("A");
    assert_eq!(a.compare(&b), VectorRelation::Same);
    a.tick("A");
    assert_eq!(b.compare(&a), VectorRelation::Before);
    b.tick("B");
    assert_eq!(a.compare(&b), VectorRelation::Concurrent);
}

#[test]
fn merge_is_pointwise_max() {
    let mut a = VectorClock::new();
    let mut b = VectorClock::new();
    a.tick("A");
    a.tick("A");
    b.tick("A");
    b.tick("B");
    let m = a.merge(&b);
    assert_eq!(*m.versions().get("A").unwrap(), 2);
    assert_eq!(*m.versions().get("B").unwrap(), 1);
}

#[test]
fn compare_is_converse_in_the_other_direction() {
    let mut a = VectorClock::new();
    let b = VectorClock::new();
    a.tick("n1");
    assert_eq!(a.compare(&b), VectorRelation::After);
    assert_eq!(b.compare(&a), VectorRelation::Before);
    assert_eq!(a.compare(&a), VectorRelation::Same);
}

#[test]
fn merge_dominates_both_and_commutes() {
    let mut a = VectorClock::new();
    let mut b = VectorClock::new();
    a.tick("x");
    a.tick("x");
    a.tick("y");
    b.tick("y");
    b.tick("y");
    b.tick("z");
    let ab = a.merge(&b);
    let ba = b.merge(&a);
    assert_eq!(ab.compare(&ba), VectorRelation::Same);
    assert_eq!(a.compare(&ab), VectorRelation::Before);
    assert_eq!(b.compare(&ab), VectorRelation::Before);
    assert_eq!(ab.version_of("x"), 2);
    assert_eq!(ab.version_of("y"), 2);
    assert_eq!(ab.version_of("z"), 1);
    assert_eq!(ab.version_of("w"), 0);
    let aa = a.merge(&a);
    assert_eq!(aa.compare(&a), VectorRelation::Same);
}

#[test]
fn absent_and_zero_counters_compare_same() {
    let a = VectorClock::new();
    let mut b = VectorClock::new();
    let c = VectorClock::new();
    // A merge that only records a node at zero is still the same clock.
    b.tick("q");
    let m = a.merge(&c);
    assert_eq!(m.compare(&a), VectorRelation::Same);
    assert_eq!(b.compare(&m), VectorRelation::After);
}

#[test]
fn clone_and_default_preserve_counters() {
    let mut a = VectorClock::default();
    a.tick("A");
    let c = a.clone();
    assert_eq!(c.compare(&a), VectorRelation::Same);
    assert_eq!(c.version_of("A"), 1);
}

#[test]
fn versions_iterate_in_node_name_order() {
    let mut a = VectorClock::new();
    a.tick("C");
    a.tick("A");
    let mut b = VectorClock::new();
    b.tick("D");
    b.tick("B");
    let m = a.merge(&b);
    let v = m.versions();
    let keys: Vec<String> = (0..v.len()).map(|i| v.key_at(i).clone()).collect();
    assert_eq!(keys, vec!["A", "B", "C", "D"]);
}
