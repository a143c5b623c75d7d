use atomr::paths::user_actor_path;
use atomr::sharding_names::region_id;
use atomr::names::{metrics_selector_str, parse_metrics_selector, MetricsSelectorName};
use atomr::names::{event_kind, event_matches_filter, ClusterEventKind};
use atomr::names::{
    parse_dead_letter_reason, parse_overflow_strategy, parse_stash_overflow, overflow_strategy_str,
    stash_overflow_str, status_from_str, status_str, DeadLetterReason, MemberStatus, OverflowStrategy,
    StashOverflow,
};
use atomr::paths::{address_part, extract_user_name, sanitize};

#[test]
fn member_status_names_round_trip() {
    for s in [
        MemberStatus::Joining,
        MemberStatus::WeaklyUp,
        MemberStatus::Up,
        MemberStatus::Leaving,
        MemberStatus::Exiting,
        MemberStatus::Down,
        MemberStatus::Removed,
    ] {
        assert_eq!(status_from_str(status_str(s)), s);
    }
    assert_eq!(status_from_str("weaklyup"), MemberStatus::WeaklyUp);
    assert_eq!(status_from_str("unknown"), MemberStatus::Joining);
}

#[test]
fn policy_names() {
    assert_eq!(parse_overflow_strategy("drop_head"), Some(OverflowStrategy::DropHead));
    assert_eq!(parse_overflow_strategy("bogus"), None);
    assert_eq!(overflow_strategy_str(OverflowStrategy::Fail), "fail");
    assert_eq!(parse_stash_overflow("reject"), Some(StashOverflow::Reject));
    assert_eq!(stash_overflow_str(StashOverflow::DropNewest), "drop_newest");
    assert_eq!(parse_dead_letter_reason("suppressed"), Some(DeadLetterReason::Suppressed));
    assert_eq!(parse_dead_letter_reason("nope"), None);
}

#[test]
fn user_names_from_paths() {
    assert_eq!(extract_user_name("akka://Sys/user/foo"), Some("foo"));
    assert_eq!(extract_user_name("akka.tcp://Sys@host:1234/user/foo/child"), Some("foo"));
    assert_eq!(extract_user_name("akka://Sys/system/foo"), None);
    assert_eq!(extract_user_name("akka://Sys/user/"), Some(""));
}

#[test]
fn address_parts_of_paths() {
    assert_eq!(address_part("akka.tcp://Sys@host:1234/user/foo"), Some("akka.tcp://Sys@host:1234"));
    assert_eq!(address_part("akka://Sys"), Some("akka://Sys"));
    assert_eq!(address_part("no-scheme/user/x"), None);
}

#[test]
fn sanitize_keeps_only_safe_characters() {
    assert_eq!(sanitize("my region/1.x"), "my_region_1_x");
    assert_eq!(sanitize("ok-name_9"), "ok-name_9");
    assert_eq!(sanitize("é"), "_");
}

#[test]
fn event_filters_match_by_kind_name() {
    let names = vec!["MemberUp".to_string(), "MemberRemoved".to_string()];
    assert!(event_matches_filter(ClusterEventKind::MemberUp, &names));
    assert!(event_matches_filter(ClusterEventKind::MemberRemoved, &names));
    assert!(!event_matches_filter(ClusterEventKind::MemberLeft, &names));
    assert!(!event_matches_filter(ClusterEventKind::Other, &names));
    assert!(event_matches_filter(ClusterEventKind::Other, &vec!["Unknown".to_string()]));
    assert_eq!(event_kind(ClusterEventKind::LeaderChanged), "LeaderChanged");
    assert!(!event_matches_filter(ClusterEventKind::MemberUp, &Vec::new()));
}

#[test]
fn metrics_selector_names_round_trip() {
    for m in [MetricsSelectorName::Cpu, MetricsSelectorName::Heap, MetricsSelectorName::Mix] {
        assert_eq!(parse_metrics_selector(metrics_selector_str(m)), Some(m));
    }
    assert_eq!(metrics_selector_str(MetricsSelectorName::Heap), "heap");
    assert_eq!(parse_metrics_selector("memory"), None);
}

#[test]
fn actor_paths_and_region_ids_are_built_from_their_parts() {
    assert_eq!(user_actor_path("S", "greeter"), "akka://S/user/greeter");
    assert_eq!(extract_user_name(&user_actor_path("S", "greeter")), Some("greeter"));
    assert_eq!(region_id("Counter", "akka://S@10.0.0.1:2552"), "Counter@akka://S@10.0.0.1:2552");
}
