//! The names under which the Python bindings expose runtime enums.

use vstd::prelude::*;
use crate::text::str_eq;

verus! {

/// A cluster member's lifecycle status.
#[derive(Debug, Clone, Copy, PartialEq, Eq, Structural)]
pub enum MemberStatus {
    Joining,
    WeaklyUp,
    Up,
    Leaving,
    Exiting,
    Down,
    Removed,
}

/// The name of a member status.
pub open spec fn member_status_name(s: MemberStatus) -> Seq<char> {
    match s {
        MemberStatus::Joining => "joining"@,
        MemberStatus::WeaklyUp => "weakly_up"@,
        MemberStatus::Up => "up"@,
        MemberStatus::Leaving => "leaving"@,
        MemberStatus::Exiting => "exiting"@,
        MemberStatus::Down => "down"@,
        MemberStatus::Removed => "removed"@,
    }
}

/// The status a name stands for; `weaklyup` is accepted too, and any other
/// name means joining.
pub open spec fn member_status_named(s: Seq<char>) -> MemberStatus {
    if s == "joining"@ {
        MemberStatus::Joining
    } else if s == "weakly_up"@ || s == "weaklyup"@ {
        MemberStatus::WeaklyUp
    } else if s == "up"@ {
        MemberStatus::Up
    } else if s == "leaving"@ {
        MemberStatus::Leaving
    } else if s == "exiting"@ {
        MemberStatus::Exiting
    } else if s == "down"@ {
        MemberStatus::Down
    } else if s == "removed"@ {
        MemberStatus::Removed
    } else {
        MemberStatus::Joining
    }
}

pub fn status_from_str(s: &str) -> (r: MemberStatus)
    ensures
        r == member_status_named(s@),
{
    if str_eq(s, "joining") {
        MemberStatus::Joining
    } else if str_eq(s, "weakly_up") || str_eq(s, "weaklyup") {
        MemberStatus::WeaklyUp
    } else if str_eq(s, "up") {
        MemberStatus::Up
    } else if str_eq(s, "leaving") {
        MemberStatus::Leaving
    } else if str_eq(s, "exiting") {
        MemberStatus::Exiting
    } else if str_eq(s, "down") {
        MemberStatus::Down
    } else if str_eq(s, "removed") {
        MemberStatus::Removed
    } else {
        MemberStatus::Joining
    }
}

pub fn status_str(s: MemberStatus) -> (r: &'static str)
    ensures
        r@ == member_status_name(s),
{
    match s {
        MemberStatus::Joining => "joining",
        MemberStatus::WeaklyUp => "weakly_up",
        MemberStatus::Up => "up",
        MemberStatus::Leaving => "leaving",
        MemberStatus::Exiting => "exiting",
        MemberStatus::Down => "down",
        MemberStatus::Removed => "removed",
    }
}

/// Reading a status's own name gives the status back.
pub proof fn lemma_member_status_round_trip(s: MemberStatus)
    ensures
        member_status_named(member_status_name(s)) == s,
{
    reveal_strlit("joining");
    reveal_strlit("weakly_up");
    reveal_strlit("weaklyup");
    reveal_strlit("up");
    reveal_strlit("leaving");
    reveal_strlit("exiting");
    reveal_strlit("down");
    reveal_strlit("removed");
    assert("joining"@.len() == 7 && "weakly_up"@.len() == 9 && "weaklyup"@.len() == 8);
    assert("up"@.len() == 2 && "leaving"@.len() == 7 && "exiting"@.len() == 7);
    assert("down"@.len() == 4 && "removed"@.len() == 7);
    assert("joining"@[0] != "leaving"@[0] && "joining"@[0] != "exiting"@[0]);
    assert("joining"@[0] != "removed"@[0] && "leaving"@[0] != "exiting"@[0]);
    assert("leaving"@[0] != "removed"@[0] && "exiting"@[0] != "removed"@[0]);
}

/// What a full mailbox does with a new message.
#[derive(Debug, Clone, Copy, PartialEq, Eq, Structural)]
pub enum OverflowStrategy {
    DropNew,
    DropHead,
    DropTail,
    Fail,
}

pub open spec fn overflow_strategy_name(s: OverflowStrategy) -> Seq<char> {
    match s {
        OverflowStrategy::DropNew => "drop_new"@,
        OverflowStrategy::DropHead => "drop_head"@,
        OverflowStrategy::DropTail => "drop_tail"@,
        OverflowStrategy::Fail => "fail"@,
    }
}

pub open spec fn overflow_strategy_named(s: Seq<char>) -> Option<OverflowStrategy> {
    if s == "drop_new"@ {
        Some(OverflowStrategy::DropNew)
    } else if s == "drop_head"@ {
        Some(OverflowStrategy::DropHead)
    } else if s == "drop_tail"@ {
        Some(OverflowStrategy::DropTail)
    } else if s == "fail"@ {
        Some(OverflowStrategy::Fail)
    } else {
        None
    }
}

pub fn parse_overflow_strategy(s: &str) -> (r: Option<OverflowStrategy>)
    ensures
        r == overflow_strategy_named(s@),
{
    if str_eq(s, "drop_new") {
        Some(OverflowStrategy::DropNew)
    } else if str_eq(s, "drop_head") {
        Some(OverflowStrategy::DropHead)
    } else if str_eq(s, "drop_tail") {
        Some(OverflowStrategy::DropTail)
    } else if str_eq(s, "fail") {
        Some(OverflowStrategy::Fail)
    } else {
        None
    }
}

pub fn overflow_strategy_str(s: OverflowStrategy) -> (r: &'static str)
    ensures
        r@ == overflow_strategy_name(s),
{
    match s {
        OverflowStrategy::DropNew => "drop_new",
        OverflowStrategy::DropHead => "drop_head",
        OverflowStrategy::DropTail => "drop_tail",
        OverflowStrategy::Fail => "fail",
    }
}

/// What a full stash does with a new message.
#[derive(Debug, Clone, Copy, PartialEq, Eq, Structural)]
pub enum StashOverflow {
    DropOldest,
    DropNewest,
    Reject,
}

pub open spec fn stash_overflow_name(s: StashOverflow) -> Seq<char> {
    match s {
        StashOverflow::DropOldest => "drop_oldest"@,
        StashOverflow::DropNewest => "drop_newest"@,
        StashOverflow::Reject => "reject"@,
    }
}

pub open spec fn stash_overflow_named(s: Seq<char>) -> Option<StashOverflow> {
    if s == "drop_oldest"@ {
        Some(StashOverflow::DropOldest)
    } else if s == "drop_newest"@ {
        Some(StashOverflow::DropNewest)
    } else if s == "reject"@ {
        Some(StashOverflow::Reject)
    } else {
        None
    }
}

pub fn parse_stash_overflow(s: &str) -> (r: Option<StashOverflow>)
    ensures
        r == stash_overflow_named(s@),
{
    if str_eq(s, "drop_oldest") {
        Some(StashOverflow::DropOldest)
    } else if str_eq(s, "drop_newest") {
        Some(StashOverflow::DropNewest)
    } else if str_eq(s, "reject") {
        Some(StashOverflow::Reject)
    } else {
        None
    }
}

pub fn stash_overflow_str(s: StashOverflow) -> (r: &'static str)
    ensures
        r@ == stash_overflow_name(s),
{
    match s {
        StashOverflow::DropOldest => "drop_oldest",
        StashOverflow::DropNewest => "drop_newest",
        StashOverflow::Reject => "reject",
    }
}

/// Why a message became a dead letter.
#[derive(Debug, Clone, Copy, PartialEq, Eq, Structural)]
pub enum DeadLetterReason {
    NoRecipient,
    Dropped,
    Suppressed,
}

pub open spec fn dead_letter_reason_named(s: Seq<char>) -> Option<DeadLetterReason> {
    if s == "no_recipient"@ {
        Some(DeadLetterReason::NoRecipient)
    } else if s == "dropped"@ {
        Some(DeadLetterReason::Dropped)
    } else if s == "suppressed"@ {
        Some(DeadLetterReason::Suppressed)
    } else {
        None
    }
}

pub fn parse_dead_letter_reason(s: &str) -> (r: Option<DeadLetterReason>)
    ensures
        r == dead_letter_reason_named(s@),
{
    if str_eq(s, "no_recipient") {
        Some(DeadLetterReason::NoRecipient)
    } else if str_eq(s, "dropped") {
        Some(DeadLetterReason::Dropped)
    } else if str_eq(s, "suppressed") {
        Some(DeadLetterReason::Suppressed)
    } else {
        None
    }
}

/// The kinds of cluster events a subscription can filter on.
#[derive(Debug, Clone, Copy, PartialEq, Eq, Structural)]
pub enum ClusterEventKind {
    MemberJoined,
    MemberWeaklyUp,
    MemberUp,
    MemberLeft,
    MemberExited,
    MemberRemoved,
    UnreachableMember,
    ReachableMember,
    LeaderChanged,
    ClusterShuttingDown,
    Convergence,
    /// Any event of another kind.
    Other,
}

/// The name a subscription filter uses for a kind of event.
pub open spec fn event_kind_name(k: ClusterEventKind) -> Seq<char> {
    match k {
        ClusterEventKind::MemberJoined => "MemberJoined"@,
        ClusterEventKind::MemberWeaklyUp => "MemberWeaklyUp"@,
        ClusterEventKind::MemberUp => "MemberUp"@,
        ClusterEventKind::MemberLeft => "MemberLeft"@,
        ClusterEventKind::MemberExited => "MemberExited"@,
        ClusterEventKind::MemberRemoved => "MemberRemoved"@,
        ClusterEventKind::UnreachableMember => "UnreachableMember"@,
        ClusterEventKind::ReachableMember => "ReachableMember"@,
        ClusterEventKind::LeaderChanged => "LeaderChanged"@,
        ClusterEventKind::ClusterShuttingDown => "ClusterShuttingDown"@,
        ClusterEventKind::Convergence => "Convergence"@,
        ClusterEventKind::Other => "Unknown"@,
    }
}

/// The name of a kind of event.
pub fn event_kind(k: ClusterEventKind) -> (s: &'static str)
    ensures
        s@ == event_kind_name(k),
{
    match k {
        ClusterEventKind::MemberJoined => "MemberJoined",
        ClusterEventKind::MemberWeaklyUp => "MemberWeaklyUp",
        ClusterEventKind::MemberUp => "MemberUp",
        ClusterEventKind::MemberLeft => "MemberLeft",
        ClusterEventKind::MemberExited => "MemberExited",
        ClusterEventKind::MemberRemoved => "MemberRemoved",
        ClusterEventKind::UnreachableMember => "UnreachableMember",
        ClusterEventKind::ReachableMember => "ReachableMember",
        ClusterEventKind::LeaderChanged => "LeaderChanged",
        ClusterEventKind::ClusterShuttingDown => "ClusterShuttingDown",
        ClusterEventKind::Convergence => "Convergence",
        ClusterEventKind::Other => "Unknown",
    }
}

/// Whether a subscription that asked for the event names `names` takes an
/// event of kind `k`.
pub fn event_matches_filter(k: ClusterEventKind, names: &Vec<String>) -> (r: bool)
    ensures
        r == exists|i: int| 0 <= i < names@.len() && #[trigger] names@[i]@ == event_kind_name(k),
{
    let kind = event_kind(k);
    let mut i: usize = 0;
    while i < names.len()
        invariant
            kind@ == event_kind_name(k),
            i <= names@.len(),
            forall|j: int| 0 <= j < i ==> #[trigger] names@[j]@ != event_kind_name(k),
        decreases names@.len() - i,
    {
        if str_eq(names[i].as_str(), kind) {
            return true;
        }
        i = i + 1;
    }
    false
}

/// Which node metric a weighted router balances on.
#[derive(Debug, Clone, Copy, PartialEq, Eq, Structural)]
pub enum MetricsSelectorName {
    Cpu,
    Heap,
    Mix,
}

/// The selector a name stands for.
pub open spec fn metrics_selector_named(s: Seq<char>) -> Option<MetricsSelectorName> {
    if s == "cpu"@ {
        Some(MetricsSelectorName::Cpu)
    } else if s == "heap"@ {
        Some(MetricsSelectorName::Heap)
    } else if s == "mix"@ {
        Some(MetricsSelectorName::Mix)
    } else {
        None
    }
}

/// The name of a selector.
pub open spec fn metrics_selector_name(m: MetricsSelectorName) -> Seq<char> {
    match m {
        MetricsSelectorName::Cpu => "cpu"@,
        MetricsSelectorName::Heap => "heap"@,
        MetricsSelectorName::Mix => "mix"@,
    }
}

pub fn parse_metrics_selector(s: &str) -> (r: Option<MetricsSelectorName>)
    ensures
        r == metrics_selector_named(s@),
{
    if str_eq(s, "cpu") {
        Some(MetricsSelectorName::Cpu)
    } else if str_eq(s, "heap") {
        Some(MetricsSelectorName::Heap)
    } else if str_eq(s, "mix") {
        Some(MetricsSelectorName::Mix)
    } else {
        None
    }
}

pub fn metrics_selector_str(m: MetricsSelectorName) -> (s: &'static str)
    ensures
        s@ == metrics_selector_name(m),
        metrics_selector_named(s@) == Some(m),
{
    proof {
        reveal_strlit("cpu");
        reveal_strlit("heap");
        reveal_strlit("mix");
        assert("cpu"@.len() == 3 && "heap"@.len() == 4 && "mix"@.len() == 3);
        assert("cpu"@[0] != "mix"@[0]);
    }
    match m {
        MetricsSelectorName::Cpu => "cpu",
        MetricsSelectorName::Heap => "heap",
        MetricsSelectorName::Mix => "mix",
    }
}

/// No two kinds of cluster event share a name, so a filter that lists the
/// name of one kind takes events of that kind and of no other.
pub proof fn lemma_event_kind_names_distinct(a: ClusterEventKind, b: ClusterEventKind)
    ensures
        event_kind_name(a) == event_kind_name(b) <==> a == b,
        (exists|i: int| 0 <= i < seq![event_kind_name(b)].len() && #[trigger] seq![event_kind_name(b)][i]
            == event_kind_name(a)) <==> a == b,
{
    reveal_strlit("MemberJoined");
    reveal_strlit("MemberWeaklyUp");
    reveal_strlit("MemberUp");
    reveal_strlit("MemberLeft");
    reveal_strlit("MemberExited");
    reveal_strlit("MemberRemoved");
    reveal_strlit("UnreachableMember");
    reveal_strlit("ReachableMember");
    reveal_strlit("LeaderChanged");
    reveal_strlit("ClusterShuttingDown");
    reveal_strlit("Convergence");
    reveal_strlit("Unknown");
    let na = event_kind_name(a);
    let nb = event_kind_name(b);
    if na == nb && a != b {
        assert(na.len() == nb.len());
        assert(na[0] == nb[0]);
        assert(na[6] == nb[6]);
        assert(na[7] == nb[7]);
    }
    if a == b {
        assert(seq![nb][0] == na);
    }
}

/// Reading an overflow strategy's or stash policy's own name gives it back.
pub proof fn lemma_policy_names_round_trip(o: OverflowStrategy, s: StashOverflow)
    ensures
        overflow_strategy_named(overflow_strategy_name(o)) == Some(o),
        stash_overflow_named(stash_overflow_name(s)) == Some(s),
{
    reveal_strlit("drop_new");
    reveal_strlit("drop_head");
    reveal_strlit("drop_tail");
    reveal_strlit("fail");
    reveal_strlit("drop_oldest");
    reveal_strlit("drop_newest");
    reveal_strlit("reject");
    assert("drop_new"@.len() == 8 && "drop_head"@.len() == 9 && "drop_tail"@.len() == 9);
    assert("fail"@.len() == 4 && "drop_head"@[5] != "drop_tail"@[5]);
    assert("drop_oldest"@.len() == 11 && "drop_newest"@.len() == 11 && "reject"@.len() == 6);
    assert("drop_oldest"@[5] != "drop_newest"@[5]);
}

/// Each kind of cluster event goes by its own variant name (events of no
/// listed kind by `Unknown`): the one kind whose name is, say,
/// `MemberExited` is `MemberExited`, so a filter naming it takes exactly
/// those events.
pub proof fn lemma_event_kinds_go_by_their_names(k: ClusterEventKind)
    ensures
        event_kind_name(k) == "MemberJoined"@ <==> k == ClusterEventKind::MemberJoined,
        event_kind_name(k) == "MemberWeaklyUp"@ <==> k == ClusterEventKind::MemberWeaklyUp,
        event_kind_name(k) == "MemberUp"@ <==> k == ClusterEventKind::MemberUp,
        event_kind_name(k) == "MemberLeft"@ <==> k == ClusterEventKind::MemberLeft,
        event_kind_name(k) == "MemberExited"@ <==> k == ClusterEventKind::MemberExited,
        event_kind_name(k) == "MemberRemoved"@ <==> k == ClusterEventKind::MemberRemoved,
        event_kind_name(k) == "UnreachableMember"@ <==> k == ClusterEventKind::UnreachableMember,
        event_kind_name(k) == "ReachableMember"@ <==> k == ClusterEventKind::ReachableMember,
        event_kind_name(k) == "LeaderChanged"@ <==> k == ClusterEventKind::LeaderChanged,
        event_kind_name(k) == "ClusterShuttingDown"@ <==> k == ClusterEventKind::ClusterShuttingDown,
        event_kind_name(k) == "Convergence"@ <==> k == ClusterEventKind::Convergence,
        event_kind_name(k) == "Unknown"@ <==> k == ClusterEventKind::Other,
{
    lemma_event_kind_names_distinct(k, ClusterEventKind::MemberJoined);
    lemma_event_kind_names_distinct(k, ClusterEventKind::MemberWeaklyUp);
    lemma_event_kind_names_distinct(k, ClusterEventKind::MemberUp);
    lemma_event_kind_names_distinct(k, ClusterEventKind::MemberLeft);
    lemma_event_kind_names_distinct(k, ClusterEventKind::MemberExited);
    lemma_event_kind_names_distinct(k, ClusterEventKind::MemberRemoved);
    lemma_event_kind_names_distinct(k, ClusterEventKind::UnreachableMember);
    lemma_event_kind_names_distinct(k, ClusterEventKind::ReachableMember);
    lemma_event_kind_names_distinct(k, ClusterEventKind::LeaderChanged);
    lemma_event_kind_names_distinct(k, ClusterEventKind::ClusterShuttingDown);
    lemma_event_kind_names_distinct(k, ClusterEventKind::Convergence);
    lemma_event_kind_names_distinct(k, ClusterEventKind::Other);
}

} // verus!
