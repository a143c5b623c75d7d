use atomr::sharding_names::{AllocationStrategyName, EntityTable, ShardingSettings};
use std::cell::Cell;
use atomr::ddata_surface::check_replicated_or_map;
use atomr::ddata_surface::{check_or_map_merge, check_or_map_put, CrdtKind, OrMapValueKind, CRDT_CLASSES};
use atomr::exporters::{parse_exporters, ExporterOptions, ExportersError, OtlpOptions, PrometheusOption};
use atomr::sharding_names::{shard_id_of, ShardIdAnswer};

#[test]
fn every_exposed_crdt_class_has_a_kind() {
    let kinds: Vec<CrdtKind> = CRDT_CLASSES.iter().map(|n| CrdtKind::from_class(n).unwrap()).collect();
    assert_eq!(kinds[0], CrdtKind::GCounter);
    assert_eq!(kinds[4], CrdtKind::LwwRegister);
    assert_eq!(kinds[9], CrdtKind::ORMultiMap);
    for i in 0..kinds.len() {
        for j in 0..i {
            assert_ne!(kinds[i], kinds[j]);
        }
    }
    assert_eq!(CrdtKind::from_class("Counter"), None);
    assert_eq!(CrdtKind::from_class("gcounter"), None);
}

#[test]
fn or_map_refuses_values_of_another_type() {
    assert!(check_or_map_put(OrMapValueKind::PNCounter, Some(CrdtKind::PNCounter)).is_ok());
    assert_eq!(
        check_or_map_put(OrMapValueKind::PNCounter, Some(CrdtKind::GCounter)).unwrap_err(),
        "ORMap[PNCounter]: value must be a `PNCounter` instance"
    );
    assert_eq!(
        check_or_map_put(OrMapValueKind::LWWMap, None).unwrap_err(),
        "ORMap[LWWMap]: value must be a `LWWMap` instance"
    );
    assert!(check_or_map_merge(OrMapValueKind::Flag, OrMapValueKind::Flag).is_ok());
    assert_eq!(
        check_or_map_merge(OrMapValueKind::Flag, OrMapValueKind::GSet).unwrap_err(),
        "ORMap merge requires matching value types: self=Flag, other=GSet"
    );
    assert_eq!(OrMapValueKind::LwwRegister.variant_name(), "LwwRegister");
}

#[test]
fn integer_shard_ids_are_reduced_modulo_the_shard_count() {
    assert_eq!(shard_id_of(ShardIdAnswer::Text("s-1".to_string()), Some(4)), "s-1");
    assert_eq!(shard_id_of(ShardIdAnswer::Int(37), None), "5");
    assert_eq!(shard_id_of(ShardIdAnswer::Int(-37), Some(10)), "7");
    assert_eq!(shard_id_of(ShardIdAnswer::Int(37), Some(0)), "0");
    assert_eq!(shard_id_of(ShardIdAnswer::Int(i64::MIN), Some(1000)), "808");
}

#[test]
fn exporters_default_to_none() {
    let c = parse_exporters(None).ok().unwrap();
    assert!(c.prometheus.is_none() && c.otlp.is_none());
}

#[test]
fn prometheus_switch_and_table() {
    let c = parse_exporters(Some(ExporterOptions { prometheus: Some(PrometheusOption::Switch(false)), otlp: None }))
        .ok()
        .unwrap();
    let p = c.prometheus.unwrap();
    assert!(!p.enabled && p.namespace.is_none());
    let c = parse_exporters(Some(ExporterOptions {
        prometheus: Some(PrometheusOption::Table { enabled: None, namespace: Some("atomr".to_string()) }),
        otlp: None,
    }))
    .ok()
    .unwrap();
    let p = c.prometheus.unwrap();
    assert!(p.enabled);
    assert_eq!(p.namespace.as_deref(), Some("atomr"));
}

fn otlp(endpoint: Option<&str>) -> OtlpOptions {
    OtlpOptions {
        endpoint: endpoint.map(|s| s.to_string()),
        protocol: None,
        service_name: None,
        interval_secs: None,
        stdout: None,
        headers: None,
        resource_attributes: None,
    }
}

#[test]
fn otlp_fills_defaults() {
    let c = parse_exporters(Some(ExporterOptions { prometheus: None, otlp: Some(otlp(Some("http://collector:4317"))) }))
        .ok()
        .unwrap();
    let o = c.otlp.unwrap();
    assert!(o.enabled && o.traces && !o.stdout);
    assert_eq!(o.endpoint, "http://collector:4317");
    assert_eq!(o.protocol, "grpc");
    assert_eq!(o.interval_secs, 30);
    assert!(o.headers.is_empty() && o.resource_attributes.is_empty() && o.service_name.is_none());
}

#[test]
fn otlp_without_endpoint_is_refused() {
    let r = parse_exporters(Some(ExporterOptions {
        prometheus: Some(PrometheusOption::Switch(true)),
        otlp: Some(otlp(None)),
    }));
    let e = r.err().unwrap();
    assert_eq!(e, ExportersError::OtlpEndpointRequired);
    assert_eq!(e.message(), "exporters.otlp requires `endpoint`");
}

use atomr::cluster_ops::{addresses_to_join, join_poll, LeaveDecision, LeaveProgress, PollOutcome};
use atomr::names::MemberStatus;
use atomr::sbr_strategy::{select_sbr, SbrConfigError, SbrRuntimeChoice, SbrSettings};

fn strings(v: &[&str]) -> Vec<String> {
    v.iter().map(|s| s.to_string()).collect()
}

#[test]
fn join_skips_known_members_and_adds_self_last() {
    let known = strings(&["akka://S@a:1"]);
    let seeds = strings(&["akka://S@a:1", "akka://S@b:2", "akka://S@b:2"]);
    let r = addresses_to_join(&known, &seeds, &"akka://S@me:3".to_string());
    assert_eq!(r, strings(&["akka://S@b:2", "akka://S@me:3"]));
    // A seed given twice, or equal to the node itself, is joined once.
    let seeds = strings(&["a", "me", "a"]);
    let r = addresses_to_join(&strings(&[]), &seeds, &"me".to_string());
    assert_eq!(r, strings(&["a", "me"]));
    let known = strings(&["akka://S@me:3"]);
    let r = addresses_to_join(&known, &strings(&[]), &"akka://S@me:3".to_string());
    assert!(r.is_empty());
}

#[test]
fn join_waits_for_up_or_weakly_up() {
    assert_eq!(join_poll(Some(MemberStatus::Up), true), PollOutcome::Done);
    assert_eq!(join_poll(Some(MemberStatus::WeaklyUp), false), PollOutcome::Done);
    assert_eq!(join_poll(Some(MemberStatus::Joining), false), PollOutcome::Wait);
    assert_eq!(join_poll(None, true), PollOutcome::TimedOut);
}

#[test]
fn leave_sends_once_when_up_then_waits_for_removal() {
    let mut p = LeaveProgress::new();
    assert_eq!(p.poll(Some(MemberStatus::Joining), false), LeaveDecision { send_leave: false, outcome: PollOutcome::Wait });
    assert_eq!(p.poll(Some(MemberStatus::Up), false), LeaveDecision { send_leave: true, outcome: PollOutcome::Wait });
    assert_eq!(p.poll(Some(MemberStatus::Up), false), LeaveDecision { send_leave: false, outcome: PollOutcome::Wait });
    assert_eq!(p.poll(Some(MemberStatus::Exiting), true), LeaveDecision { send_leave: false, outcome: PollOutcome::TimedOut });
    assert_eq!(p.poll(None, false), LeaveDecision { send_leave: false, outcome: PollOutcome::Done });

    let mut q = LeaveProgress::new();
    // Not a member and no leave sent yet: not done.
    assert_eq!(q.poll(None, false).outcome, PollOutcome::Wait);
    assert_eq!(q.poll(Some(MemberStatus::Removed), false).outcome, PollOutcome::Done);
    assert!(!q.sent_leave);
}

fn sbr(strategy: Option<&str>) -> SbrSettings {
    SbrSettings {
        strategy: strategy.map(|s| s.to_string()),
        quorum_size: None,
        down_if_alone: None,
        lease_acquired: None,
        stable_after_ms: None,
    }
}

#[test]
fn sbr_selection_from_settings() {
    assert_eq!(select_sbr(&sbr(None)), Ok(None));
    assert_eq!(select_sbr(&sbr(Some("keep-majority"))), Ok(Some((SbrRuntimeChoice::KeepMajority, 20_000))));
    assert_eq!(select_sbr(&sbr(Some("down-all-when-unstable"))), Ok(Some((SbrRuntimeChoice::KeepMajority, 20_000))));
    let mut s = sbr(Some("static-quorum"));
    s.quorum_size = Some(-4);
    s.stable_after_ms = Some(5_000);
    assert_eq!(select_sbr(&s), Ok(Some((SbrRuntimeChoice::StaticQuorum { quorum_size: 1 }, 5_000))));
    s.quorum_size = Some(3);
    assert_eq!(select_sbr(&s), Ok(Some((SbrRuntimeChoice::StaticQuorum { quorum_size: 3 }, 5_000))));
    let mut s = sbr(Some("keep-oldest"));
    s.down_if_alone = Some(true);
    assert_eq!(select_sbr(&s), Ok(Some((SbrRuntimeChoice::KeepOldest { down_if_alone: true }, 20_000))));
    assert_eq!(
        select_sbr(&sbr(Some("lease-majority"))),
        Ok(Some((SbrRuntimeChoice::LeaseMajority { lease_acquired: false }, 20_000)))
    );
    assert_eq!(select_sbr(&sbr(Some("majority"))), Err(SbrConfigError::UnknownStrategy("majority".to_string())));
}

use atomr::actor_registry::PyActorRegistry;

#[test]
fn inbound_targets_resolve_by_path_then_by_user_name() {
    let mut r: PyActorRegistry<u32> = PyActorRegistry::new();
    r.register("akka://Sys/user/echo", 1);
    r.register("akka://Sys/user/echo/child", 2);
    assert_eq!(r.lookup("akka://Sys/user/echo"), Some(&1));
    assert_eq!(r.lookup("akka://Other/user/echo"), None);
    assert_eq!(r.lookup_by_user_name("echo"), Some(&1));
    assert_eq!(r.lookup_by_user_name("child"), None);
    // Exact path first.
    assert_eq!(r.resolve_target("akka://Sys/user/echo/child"), Some(&2));
    // A foreign address prefix falls back to the user name.
    assert_eq!(r.resolve_target("akka.tcp://Sys@10.0.0.1:2552/user/echo"), Some(&1));
    assert_eq!(r.resolve_target("akka.tcp://Sys@10.0.0.1:2552/user/missing"), None);
    assert_eq!(r.resolve_target("akka://Sys/system/echo"), None);
    r.register("akka://Sys/user/echo", 5);
    assert_eq!(r.resolve_target("akka://Sys/user/echo"), Some(&5));
}

use atomr::services::PyServiceContainer;

#[test]
fn service_container_registers_and_resolves() {
    let mut c: PyServiceContainer<&'static str> = PyServiceContainer::new();
    c.register("db".to_string(), "postgres");
    c.register("cache".to_string(), "redis");
    c.register("db".to_string(), "sqlite");
    assert_eq!(c.resolve("db"), Some(&"sqlite"));
    assert_eq!(c.resolve("queue"), None);
    assert_eq!(c.keys(), vec!["cache".to_string(), "db".to_string()]);
}

#[test]
fn replicator_takes_only_lww_register_or_maps() {
    assert!(check_replicated_or_map(OrMapValueKind::LwwRegister).is_ok());
    assert_eq!(
        check_replicated_or_map(OrMapValueKind::GSet).unwrap_err(),
        "Replicator.update only supports ORMap[LwwRegister]; got ORMap[GSet]. Use of_lww_register() to construct a Replicator-compatible ORMap."
    );
}

#[test]
fn sharding_settings_defaults_and_strategy_check() {
    let d = ShardingSettings::default();
    assert_eq!(d.allocation_strategy, AllocationStrategyName::LeastShards);
    assert_eq!((d.rebalance_threshold, d.max_simultaneous_rebalance), (1, 3));
    assert!(d.passivation_idle_timeout_ms.is_none() && !d.remember_entities && d.number_of_shards.is_none());
    let p = ShardingSettings::new("pinned", 2, 5, Some(1500), true, Some(64)).ok().unwrap();
    assert_eq!(p.allocation_strategy, AllocationStrategyName::Pinned);
    assert_eq!(p.number_of_shards, Some(64));
    assert_eq!(
        ShardingSettings::new("round-robin", 1, 3, None, false, None).err().unwrap(),
        "unknown allocation_strategy \"round-robin\": expected `least-shards` or `pinned`"
    );
}

#[test]
fn ensure_entity_spawns_once_and_counts_incarnations() {
    let mut t: EntityTable<u32> = EntityTable::new();
    let spawned = Cell::new(0);
    let spawn = |name: &String| -> Option<u32> {
        spawned.set(spawned.get() + 1);
        Some(name.len() as u32)
    };
    let first = t.ensure_entity("Counter", "e/1", 1, &spawn).map(|e| e.name.clone());
    assert_eq!(first.as_deref(), Some("Counter-e_1"));
    // A second call finds the live entity: no spawn, no new incarnation.
    let again = t.ensure_entity("Counter", "e/1", 1, &spawn).map(|e| e.name.clone());
    assert_eq!(again.as_deref(), Some("Counter-e_1"));
    assert_eq!(spawned.get(), 1);
    // Passivated, it comes back as a new incarnation.
    assert_eq!(t.remove_entity("e/1").map(|e| e.name), Some("Counter-e_1".to_string()));
    let back = t.ensure_entity("Counter", "e/1", 1, &spawn).map(|e| e.name.clone());
    assert_eq!(back.as_deref(), Some("Counter-e_1__r1__inc2"));
    // A refused spawn records nothing but keeps the bumped incarnation.
    assert!(t.ensure_entity("Counter", "e2", 1, |_: &String| -> Option<u32> { None }).is_none());
    let e2 = t.ensure_entity("Counter", "e2", 1, &spawn).map(|e| e.name.clone());
    assert_eq!(e2.as_deref(), Some("Counter-e2__r1__inc2"));
}
