use atomr::compat::{CompatFlags, CompatRegistry};
use atomr::daemon::DaemonConfig;
use atomr::reachability::ReachabilityStatus;
use atomr::router::{splitmix64, RouteAction, RouterLogicState};

#[test]
fn baseline_compat_flags() {
    let reg = CompatRegistry::baseline();
    let json = reg.get("json").unwrap();
    assert!(json.subinterpreter_safe && json.nogil_safe);
    assert_eq!(json.notes, "stdlib");
    let numpy = reg.get("numpy").unwrap();
    assert!(numpy.subinterpreter_safe && !numpy.nogil_safe);
    let torch = reg.get("torch").unwrap();
    assert!(!torch.subinterpreter_safe && !torch.nogil_safe);
    assert!(reg.get("left-pad").is_none());
    assert_eq!(reg.names().len(), 12);
    assert_eq!(reg.names()[0], "asyncio");
}

#[test]
fn declare_overrides_baseline() {
    let mut reg = CompatRegistry::baseline();
    reg.declare(
        "torch".to_string(),
        CompatFlags { subinterpreter_safe: true, nogil_safe: false, notes: "audited".into() },
    );
    let torch = reg.get("torch").unwrap();
    assert!(torch.subinterpreter_safe);
    assert_eq!(torch.notes, "audited");
}

#[test]
fn daemon_default_interval() {
    assert_eq!(DaemonConfig::default().gossip_interval, 1000);
    assert_eq!(ReachabilityStatus::Reachable, ReachabilityStatus::Reachable);
}

#[test]
fn round_robin_router_rotates() {
    let mut r = RouterLogicState::RoundRobin { cursor: 0 };
    assert_eq!(r.route(3, None, false), RouteAction::One(0));
    assert_eq!(r.route(3, None, false), RouteAction::One(1));
    assert_eq!(r.route(3, None, false), RouteAction::One(2));
    assert_eq!(r.route(3, None, false), RouteAction::One(0));
    assert_eq!(r.route(0, None, false), RouteAction::Nowhere);
}

#[test]
fn consistent_hash_router_is_stable() {
    let mut r = RouterLogicState::ConsistentHash;
    let a = r.route(5, Some(42), false);
    let b = r.route(5, Some(42), true);
    assert_eq!(a, b);
    assert_eq!(a, RouteAction::One((splitmix64(42) as usize) % 5));
    assert_eq!(r.route(5, None, true), RouteAction::MissingKey { has_reply: true });
}

#[test]
fn splitmix_known_value() {
    // First output of splitmix64 seeded with 0.
    assert_eq!(splitmix64(0), 0xE220A8397B1DCDAF);
}

#[test]
fn smallest_mailbox_picks_least_loaded_first() {
    let mut r = RouterLogicState::SmallestMailbox { slots: Vec::new() };
    r.prepare(3);
    assert_eq!(r.route(3, None, false), RouteAction::One(0));
    assert_eq!(r.route(3, None, false), RouteAction::One(1));
    assert_eq!(r.route(3, None, false), RouteAction::One(2));
    assert_eq!(r.route(3, None, false), RouteAction::One(0));
}

#[test]
fn tail_chopping_retries_only_asks() {
    let mut r = RouterLogicState::TailChopping { cursor: 2, interval: 50_000_000, within: 1_000_000_000 };
    assert_eq!(r.route(3, None, true), RouteAction::OneThenRetry { primary: 2, secondary: 0, after: 50_000_000 });
    assert_eq!(r.route(3, None, false), RouteAction::One(0));
    let mut z = RouterLogicState::TailChopping { cursor: 0, interval: 0, within: 1_000_000_000 };
    assert_eq!(z.route(2, None, true), RouteAction::One(0));
    // A sub-millisecond interval still retries.
    let mut f = RouterLogicState::TailChopping { cursor: 0, interval: 500_000, within: 1_000_000_000 };
    assert_eq!(f.route(2, None, true), RouteAction::OneThenRetry { primary: 0, secondary: 1, after: 500_000 });
}

#[test]
fn broadcast_and_random() {
    let mut b = RouterLogicState::Broadcast;
    assert_eq!(b.route(4, None, false), RouteAction::All);
    let mut g = RouterLogicState::random();
    let first = g.route(7, None, false);
    assert_eq!(first, RouteAction::One((splitmix64(0xDEADBEEF) as usize) % 7));
}
