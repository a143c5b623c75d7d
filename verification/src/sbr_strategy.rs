//! Names of the split-brain-resolver strategies, as they appear under the
//! `cluster.sbr.strategy` configuration key.

use vstd::prelude::*;
use crate::text::str_eq;

verus! {

/// Canonical split-brain-resolver strategy names.
#[derive(Debug, Clone, Copy, PartialEq, Eq, Structural)]
pub enum SbrStrategyName {
    KeepMajority,
    StaticQuorum,
    KeepOldest,
    DownAll,
    LeaseMajority,
}

/// The configuration key of each strategy.
pub open spec fn strategy_key(s: SbrStrategyName) -> Seq<char> {
    match s {
        SbrStrategyName::KeepMajority => "keep-majority"@,
        SbrStrategyName::StaticQuorum => "static-quorum"@,
        SbrStrategyName::KeepOldest => "keep-oldest"@,
        SbrStrategyName::DownAll => "down-all"@,
        SbrStrategyName::LeaseMajority => "lease-majority"@,
    }
}

/// The strategy a configuration value names; `down-all-when-unstable` is an
/// alias of `down-all`.
pub open spec fn strategy_named(s: Seq<char>) -> Option<SbrStrategyName> {
    if s == "keep-majority"@ {
        Some(SbrStrategyName::KeepMajority)
    } else if s == "static-quorum"@ {
        Some(SbrStrategyName::StaticQuorum)
    } else if s == "keep-oldest"@ {
        Some(SbrStrategyName::KeepOldest)
    } else if s == "down-all"@ || s == "down-all-when-unstable"@ {
        Some(SbrStrategyName::DownAll)
    } else if s == "lease-majority"@ {
        Some(SbrStrategyName::LeaseMajority)
    } else {
        None
    }
}

impl SbrStrategyName {
    /// Every strategy, in declaration order.
    pub const ALL: [SbrStrategyName; 5] = [
        SbrStrategyName::KeepMajority,
        SbrStrategyName::StaticQuorum,
        SbrStrategyName::KeepOldest,
        SbrStrategyName::DownAll,
        SbrStrategyName::LeaseMajority,
    ];

    /// The configuration key of this strategy.
    pub fn as_str(self) -> (r: &'static str)
        ensures
            r@ == strategy_key(self),
    {
        match self {
            SbrStrategyName::KeepMajority => "keep-majority",
            SbrStrategyName::StaticQuorum => "static-quorum",
            SbrStrategyName::KeepOldest => "keep-oldest",
            SbrStrategyName::DownAll => "down-all",
            SbrStrategyName::LeaseMajority => "lease-majority",
        }
    }

    /// The strategy named by `s`, if any.
    pub fn parse(s: &str) -> (r: Option<SbrStrategyName>)
        ensures
            r == strategy_named(s@),
    {
        if str_eq(s, "keep-majority") {
            Some(SbrStrategyName::KeepMajority)
        } else if str_eq(s, "static-quorum") {
            Some(SbrStrategyName::StaticQuorum)
        } else if str_eq(s, "keep-oldest") {
            Some(SbrStrategyName::KeepOldest)
        } else if str_eq(s, "down-all") || str_eq(s, "down-all-when-unstable") {
            Some(SbrStrategyName::DownAll)
        } else if str_eq(s, "lease-majority") {
            Some(SbrStrategyName::LeaseMajority)
        } else {
            None
        }
    }
}

/// Whether `s` names a known strategy.
pub fn is_known_strategy(s: &str) -> (r: bool)
    ensures
        r == strategy_named(s@).is_some(),
{
    SbrStrategyName::parse(s).is_some()
}

/// Parsing a strategy's own key gives the strategy back.
pub proof fn lemma_parse_as_str_round_trip(s: SbrStrategyName)
    ensures
        strategy_named(strategy_key(s)) == Some(s),
{
    reveal_strlit("keep-majority");
    reveal_strlit("static-quorum");
    reveal_strlit("keep-oldest");
    reveal_strlit("down-all");
    reveal_strlit("down-all-when-unstable");
    reveal_strlit("lease-majority");
    assert("keep-majority"@.len() == 13 && "static-quorum"@.len() == 13);
    assert("keep-oldest"@.len() == 11 && "down-all"@.len() == 8);
    assert("down-all-when-unstable"@.len() == 22 && "lease-majority"@.len() == 14);
    assert("keep-majority"@[0] != "static-quorum"@[0]);
}

/// The split-brain resolver a cluster daemon is started with. `down-all`
/// runs the keep-majority resolver, which downs everyone on a tie.
#[derive(Debug, Clone, Copy, PartialEq, Eq, Structural)]
pub enum SbrRuntimeChoice {
    KeepMajority,
    StaticQuorum { quorum_size: usize },
    KeepOldest { down_if_alone: bool },
    LeaseMajority { lease_acquired: bool },
}

/// The `cluster.sbr.*` settings as read from configuration, each
/// possibly absent.
pub struct SbrSettings {
    pub strategy: Option<String>,
    pub quorum_size: Option<i64>,
    pub down_if_alone: Option<bool>,
    pub lease_acquired: Option<bool>,
    /// `cluster.sbr.stable-after`, in milliseconds.
    pub stable_after_ms: Option<u64>,
}

/// Why the `cluster.sbr.*` settings were refused.
#[derive(Debug, Clone, PartialEq, Eq)]
pub enum SbrConfigError {
    /// `cluster.sbr.strategy` names no strategy.
    UnknownStrategy(String),
}

/// The resolver that strategy `k` runs with the settings `s`: a quorum of
/// 1 when none (or less than 1) is set, `down-if-alone` and
/// `lease-acquired` false when unset.
pub open spec fn runtime_choice(k: SbrStrategyName, s: SbrSettings) -> SbrRuntimeChoice {
    match k {
        SbrStrategyName::KeepMajority => SbrRuntimeChoice::KeepMajority,
        SbrStrategyName::DownAll => SbrRuntimeChoice::KeepMajority,
        SbrStrategyName::StaticQuorum => SbrRuntimeChoice::StaticQuorum {
            quorum_size: match s.quorum_size {
                Some(q) => if q < 1 {
                    1usize
                } else {
                    q as usize
                },
                None => 1usize,
            },
        },
        SbrStrategyName::KeepOldest => SbrRuntimeChoice::KeepOldest {
            down_if_alone: match s.down_if_alone {
                Some(b) => b,
                None => false,
            },
        },
        SbrStrategyName::LeaseMajority => SbrRuntimeChoice::LeaseMajority {
            lease_acquired: match s.lease_acquired {
                Some(b) => b,
                None => false,
            },
        },
    }
}

/// The resolver the daemon starts with and its stable-after period in
/// milliseconds (20 s unless set); `None` when no strategy is configured,
/// and refused when the configured one is unknown.
pub fn select_sbr(s: &SbrSettings) -> (r: Result<Option<(SbrRuntimeChoice, u64)>, SbrConfigError>)
    ensures
        match s.strategy {
            None => r == Ok::<Option<(SbrRuntimeChoice, u64)>, SbrConfigError>(None),
            Some(name) => match strategy_named(name@) {
                None => r matches Err(SbrConfigError::UnknownStrategy(n)) && n@ == name@,
                Some(k) => r == Ok::<Option<(SbrRuntimeChoice, u64)>, SbrConfigError>(
                    Some(
                        (
                            runtime_choice(k, *s),
                            match s.stable_after_ms {
                                Some(ms) => ms,
                                None => 20_000u64,
                            },
                        ),
                    ),
                ),
            },
        },
{
    let name = match &s.strategy {
        None => {
            return Ok(None);
        },
        Some(n) => n,
    };
    let stable_after: u64 = match s.stable_after_ms {
        Some(ms) => ms,
        None => 20_000,
    };
    let choice = match SbrStrategyName::parse(name.as_str()) {
        None => {
            return Err(SbrConfigError::UnknownStrategy(name.clone()));
        },
        Some(SbrStrategyName::KeepMajority) => SbrRuntimeChoice::KeepMajority,
        Some(SbrStrategyName::DownAll) => SbrRuntimeChoice::KeepMajority,
        Some(SbrStrategyName::StaticQuorum) => {
            let q: usize = match s.quorum_size {
                Some(q) => if q < 1 {
                    1
                } else {
                    q as usize
                },
                None => 1,
            };
            SbrRuntimeChoice::StaticQuorum { quorum_size: q }
        },
        Some(SbrStrategyName::KeepOldest) => SbrRuntimeChoice::KeepOldest {
            down_if_alone: match s.down_if_alone {
                Some(b) => b,
                None => false,
            },
        },
        Some(SbrStrategyName::LeaseMajority) => SbrRuntimeChoice::LeaseMajority {
            lease_acquired: match s.lease_acquired {
                Some(b) => b,
                None => false,
            },
        },
    };
    Ok(Some((choice, stable_after)))
}

/// The resolver chosen follows the configured flags: a lease-majority
/// resolver holds the lease exactly when `lease-acquired` says so, a
/// keep-oldest one downs itself alone exactly when `down-if-alone` says so,
/// and a static quorum is the configured size (as a `usize`) when that is
/// at least 1; an absent flag means false and an absent or smaller quorum
/// means 1. Keep-majority, and down-all under either of its names, run the
/// keep-majority resolver.
pub proof fn lemma_resolver_follows_settings(s: SbrSettings)
    ensures
        runtime_choice(SbrStrategyName::LeaseMajority, s) matches SbrRuntimeChoice::LeaseMajority {
            lease_acquired,
        } && (lease_acquired <==> s.lease_acquired == Some(true)),
        runtime_choice(SbrStrategyName::KeepOldest, s) matches SbrRuntimeChoice::KeepOldest {
            down_if_alone,
        } && (down_if_alone <==> s.down_if_alone == Some(true)),
        runtime_choice(SbrStrategyName::StaticQuorum, s) matches SbrRuntimeChoice::StaticQuorum {
            quorum_size,
        } && (forall|q: i64| s.quorum_size == Some(q) && q >= 1 ==> quorum_size == q as usize) && (
        !(s.quorum_size matches Some(q) && q >= 1) ==> quorum_size == 1),
        strategy_named("lease-majority"@) == Some(SbrStrategyName::LeaseMajority),
        strategy_named("keep-oldest"@) == Some(SbrStrategyName::KeepOldest),
        strategy_named("static-quorum"@) == Some(SbrStrategyName::StaticQuorum),
        runtime_choice(SbrStrategyName::KeepMajority, s) == SbrRuntimeChoice::KeepMajority,
        runtime_choice(SbrStrategyName::DownAll, s) == SbrRuntimeChoice::KeepMajority,
        strategy_named("keep-majority"@) == Some(SbrStrategyName::KeepMajority),
        strategy_named("down-all"@) == Some(SbrStrategyName::DownAll),
        strategy_named("down-all-when-unstable"@) == Some(SbrStrategyName::DownAll),
{
    reveal_strlit("keep-majority");
    reveal_strlit("static-quorum");
    reveal_strlit("keep-oldest");
    reveal_strlit("down-all");
    reveal_strlit("down-all-when-unstable");
    assert("down-all-when-unstable"@.len() == 22);
    lemma_parse_as_str_round_trip(SbrStrategyName::KeepMajority);
    lemma_parse_as_str_round_trip(SbrStrategyName::DownAll);
    lemma_parse_as_str_round_trip(SbrStrategyName::LeaseMajority);
    lemma_parse_as_str_round_trip(SbrStrategyName::KeepOldest);
    lemma_parse_as_str_round_trip(SbrStrategyName::StaticQuorum);
}

} // verus!
