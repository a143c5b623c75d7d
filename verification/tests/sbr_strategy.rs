use atomr::sbr_strategy::{is_known_strategy, SbrStrategyName};

#[test]
fn round_trip() {
    for name in SbrStrategyName::ALL.iter() {
        assert_eq!(SbrStrategyName::parse(name.as_str()), Some(*name));
    }
}

#[test]
fn down_all_alias() {
    assert_eq!(SbrStrategyName::parse("down-all-when-unstable"), Some(SbrStrategyName::DownAll));
}

#[test]
fn unknown_returns_none() {
    assert!(!is_known_strategy("not-a-strategy"));
}

#[test]
fn strategy_keys_are_the_config_names() {
    assert_eq!(SbrStrategyName::KeepMajority.as_str(), "keep-majority");
    assert_eq!(SbrStrategyName::StaticQuorum.as_str(), "static-quorum");
    assert_eq!(SbrStrategyName::KeepOldest.as_str(), "keep-oldest");
    assert_eq!(SbrStrategyName::DownAll.as_str(), "down-all");
    assert_eq!(SbrStrategyName::LeaseMajority.as_str(), "lease-majority");
    assert!(is_known_strategy("lease-majority"));
    assert_eq!(SbrStrategyName::parse("Keep-Majority"), None);
    assert_eq!(SbrStrategyName::parse(""), None);
}
