use atomr::ddata_surface::{exposed_class_count, CRDT_CLASSES, HELPER_CLASSES, REPLICATOR_CLASSES};
use atomr::stream_policy::{CallbackErrorPolicy, DEFAULT_HUB_BUFFER, DEFAULT_MAP_ASYNC_PARALLELISM};

#[test]
fn class_lists_are_distinct() {
    for c in CRDT_CLASSES.iter() {
        assert!(!REPLICATOR_CLASSES.contains(c), "duplicate {c}");
        assert!(!HELPER_CLASSES.contains(c), "duplicate {c}");
    }
}

#[test]
fn exposed_count_matches_lists() {
    assert_eq!(exposed_class_count(), 18);
}

#[test]
fn defaults_are_reasonable() {
    assert_eq!(CallbackErrorPolicy::default(), CallbackErrorPolicy::SubstituteNone);
}

#[test]
fn stream_defaults_are_at_least_one() {
    assert!(DEFAULT_HUB_BUFFER >= 1);
    assert!(DEFAULT_MAP_ASYNC_PARALLELISM >= 1);
    assert_eq!(DEFAULT_HUB_BUFFER, 16);
}
