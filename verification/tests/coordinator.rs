use atomr::coordinator::{
    project_into, CoordinatorCommand, CoordinatorError, CoordinatorEvent, CoordinatorState, PersistentShardCoordinator,
    ShardCoordinator,
};

/// Handles a command: turns it into events, appends them to the journal and
/// applies them to the state.
fn handle(
    coord: &PersistentShardCoordinator,
    journal: &mut Vec<CoordinatorEvent>,
    state: &mut CoordinatorState,
    cmd: CoordinatorCommand,
) -> Result<(), CoordinatorError> {
    let events = coord.command_to_events(state, cmd)?;
    for e in events {
        PersistentShardCoordinator::apply_event(state, &e);
        journal.push(e);
    }
    Ok(())
}

fn recover(journal: &[CoordinatorEvent]) -> CoordinatorState {
    let mut state = CoordinatorState::default();
    for e in journal {
        PersistentShardCoordinator::apply_event(&mut state, e);
    }
    state
}

fn region_of(state: &CoordinatorState, shard: &str) -> Option<String> {
    state.allocations.get(shard).cloned()
}

#[test]
fn allocate_then_rebalance_round_trips() {
    let coord = PersistentShardCoordinator::new("coord-1".to_string());
    let mut journal = Vec::new();
    let mut state = CoordinatorState::default();
    handle(&coord, &mut journal, &mut state, CoordinatorCommand::Allocate { shard_id: "s1".into(), region: "r1".into() }).unwrap();
    handle(&coord, &mut journal, &mut state, CoordinatorCommand::Rebalance { shard_id: "s1".into(), to_region: "r2".into() }).unwrap();
    assert_eq!(region_of(&state, "s1"), Some("r2".to_string()));

    let state2 = recover(&journal);
    assert_eq!(region_of(&state2, "s1"), Some("r2".to_string()));
}

#[test]
fn rebalance_unknown_shard_errors() {
    let coord = PersistentShardCoordinator::new("coord-2".to_string());
    let mut journal = Vec::new();
    let mut state = CoordinatorState::default();
    let r = handle(&coord, &mut journal, &mut state, CoordinatorCommand::Rebalance { shard_id: "missing".into(), to_region: "r2".into() });
    assert!(matches!(r, Err(CoordinatorError::UnknownShard(_))));
    assert!(journal.is_empty());
}

#[test]
fn remove_shard_drops_from_state() {
    let coord = PersistentShardCoordinator::new("coord-4".to_string());
    let mut journal = Vec::new();
    let mut state = CoordinatorState::default();
    handle(&coord, &mut journal, &mut state, CoordinatorCommand::Allocate { shard_id: "s1".into(), region: "r1".into() }).unwrap();
    handle(&coord, &mut journal, &mut state, CoordinatorCommand::Remove { shard_id: "s1".into() }).unwrap();
    assert!(!state.allocations.contains_key("s1"));
}

#[test]
fn replay_restores_three_allocations() {
    let coord = PersistentShardCoordinator::new("coord-3".to_string());
    let mut journal = Vec::new();
    let mut state = CoordinatorState::default();
    for (sid, region) in [("s1", "r1"), ("s2", "r2"), ("s3", "r1")] {
        handle(&coord, &mut journal, &mut state, CoordinatorCommand::Allocate { shard_id: sid.into(), region: region.into() }).unwrap();
    }
    let state2 = recover(&journal);
    assert_eq!(region_of(&state2, "s1"), Some("r1".to_string()));
    assert_eq!(region_of(&state2, "s2"), Some("r2".to_string()));
    assert_eq!(region_of(&state2, "s3"), Some("r1".to_string()));
}

#[test]
fn rebalance_event_records_origin_region() {
    let coord = PersistentShardCoordinator::new("c".to_string());
    let mut state = CoordinatorState::default();
    state.allocations.insert("s1".into(), "r1".into());
    let evs = coord.command_to_events(&state, CoordinatorCommand::Rebalance { shard_id: "s1".into(), to_region: "r9".into() }).unwrap();
    assert_eq!(evs.len(), 1);
    match &evs[0] {
        CoordinatorEvent::ShardRebalanced { shard_id, from_region, to_region } => {
            assert_eq!(shard_id, "s1");
            assert_eq!(from_region, "r1");
            assert_eq!(to_region, "r9");
        }
        _ => panic!("expected a rebalance event"),
    }
}

#[test]
fn remove_unknown_shard_errors() {
    let coord = PersistentShardCoordinator::new("c".to_string());
    let state = CoordinatorState::default();
    let r = coord.command_to_events(&state, CoordinatorCommand::Remove { shard_id: "nope".into() });
    match r {
        Err(CoordinatorError::UnknownShard(id)) => assert_eq!(id, "nope"),
        _ => panic!("expected UnknownShard"),
    }
}

#[test]
fn persistence_id_is_kept() {
    let coord = PersistentShardCoordinator::new("coord-9".to_string());
    assert_eq!(coord.persistence_id(), "coord-9");
}

#[test]
fn project_into_in_memory_coordinator() {
    let coord = PersistentShardCoordinator::new("coord-3".to_string());
    let mut journal = Vec::new();
    let mut state = CoordinatorState::default();
    for (sid, region) in [("s1", "r1"), ("s2", "r2"), ("s3", "r1")] {
        handle(&coord, &mut journal, &mut state, CoordinatorCommand::Allocate { shard_id: sid.into(), region: region.into() })
            .unwrap();
    }

    // Replay into a brand-new in-memory coordinator.
    let state2 = recover(&journal);
    let mut local = ShardCoordinator::new();
    project_into(&state2, &mut local);
    assert_eq!(local.region_for("s1"), Some("r1".to_string()));
    assert_eq!(local.region_for("s2"), Some("r2".to_string()));
    assert_eq!(local.region_for("s3"), Some("r1".to_string()));
}

#[test]
fn project_into_keeps_unrelated_and_overwrites_known() {
    let mut state = CoordinatorState::default();
    PersistentShardCoordinator::apply_event(
        &mut state,
        &CoordinatorEvent::ShardAllocated { shard_id: "s1".into(), region: "r9".into() },
    );
    let mut local = ShardCoordinator::new();
    local.rebalance("s1", "r1".to_string());
    local.rebalance("s0", "r0".to_string());
    project_into(&state, &mut local);
    assert_eq!(local.region_for("s1"), Some("r9".to_string()));
    assert_eq!(local.region_for("s0"), Some("r0".to_string()));
    assert_eq!(local.region_for("s2"), None);
}
