use atomr::reachability::{Reachability, ReachabilityStatus};

#[test]
fn marks_unreachable_then_reachable() {
    let mut r = Reachability::new();
    let a = "akka://A".to_string();
    let b = "akka://B".to_string();
    r.unreachable(a.clone(), b.clone());
    assert!(!r.is_reachable(&b));
    r.reachable(a.clone(), b.clone());
    assert!(r.is_reachable(&b));
}

#[test]
fn any_unreachable_observer_wins() {
    let mut r = Reachability::new();
    r.reachable("o1".into(), "s".into());
    r.unreachable("o2".into(), "s".into());
    assert_eq!(r.status("s"), ReachabilityStatus::Unreachable);
    r.terminated("o3".into(), "s".into());
    assert_eq!(r.status("s"), ReachabilityStatus::Terminated);
    assert_eq!(r.status("other"), ReachabilityStatus::Reachable);
}
