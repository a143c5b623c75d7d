//! Routing decisions of the router actor: which of its `n` routees gets a
//! message.

use vstd::prelude::*;

verus! {

/// The splitmix64 mixing function.
pub open spec fn mix64(x: u64) -> u64 {
    let x = x.wrapping_add(0x9E3779B97F4A7C15u64);
    let z = (x ^ (x >> 30u64)).wrapping_mul(0xBF58476D1CE4E5B9u64);
    let z = (z ^ (z >> 27u64)).wrapping_mul(0x94D049BB133111EBu64);
    z ^ (z >> 31u64)
}

pub fn splitmix64(x: u64) -> (r: u64)
    ensures
        r == mix64(x),
{
    let x = x.wrapping_add(0x9E3779B97F4A7C15u64);
    let z = (x ^ (x >> 30u64)).wrapping_mul(0xBF58476D1CE4E5B9u64);
    let z = (z ^ (z >> 27u64)).wrapping_mul(0x94D049BB133111EBu64);
    z ^ (z >> 31u64)
}

/// A router's logic and its running state. Times are in nanoseconds, which
/// holds any `Duration` exactly.
pub enum RouterLogicState {
    Broadcast,
    RoundRobin { cursor: usize },
    Random { seed: u64 },
    ConsistentHash,
    SmallestMailbox { slots: Vec<usize> },
    TailChopping { cursor: usize, interval: u128, within: u128 },
    ScatterGather { within: u128 },
}

/// Where a message goes.
#[derive(Debug, Clone, Copy, PartialEq, Eq, Structural)]
pub enum RouteAction {
    /// There are no routees.
    Nowhere,
    /// To every routee.
    All,
    /// To routee `i`.
    One(usize),
    /// To routee `primary`; if no reply came after `after` nanoseconds, a
    /// copy to routee `secondary`.
    OneThenRetry { primary: usize, secondary: usize, after: u128 },
    /// A consistent-hash router got a message without a key; the asker, if
    /// any, is told so.
    MissingKey { has_reply: bool },
}

impl RouterLogicState {
    /// Fresh state of the random logic.
    pub fn random() -> (s: Self)
        ensures
            s == (RouterLogicState::Random { seed: 0xDEADBEEF }),
    {
        RouterLogicState::Random { seed: 0xDEADBEEF }
    }

    /// Sizes the per-routee load counters once the `n` routees exist.
    pub fn prepare(&mut self, n: usize)
        ensures
            match *old(self) {
                RouterLogicState::SmallestMailbox { .. } => *final(self) matches RouterLogicState::SmallestMailbox { slots }
                    && slots@ == Seq::new(n as nat, |i: int| 0usize),
                _ => *final(self) == *old(self),
            },
    {
        if let RouterLogicState::SmallestMailbox { slots } = self {
            let mut v: Vec<usize> = Vec::new();
            let mut i: usize = 0;
            while i < n
                invariant
                    i <= n,
                    v@ == Seq::new(i as nat, |k: int| 0usize),
                decreases n - i,
            {
                v.push(0);
                i = i + 1;
                assert(v@ =~= Seq::new(i as nat, |k: int| 0usize));
            }
            *slots = v;
        }
    }

    /// Decides where a message goes among `n` routees. `key` is the
    /// message's routing key, if it has one; `has_reply` whether someone
    /// awaits a reply.
    pub fn route(&mut self, n: usize, key: Option<u64>, has_reply: bool) -> (a: RouteAction)
        requires
            n > 0 ==> match *old(self) {
                RouterLogicState::SmallestMailbox { slots } => slots@.len() == n,
                _ => true,
            },
        ensures
            n == 0 ==> a == RouteAction::Nowhere && *final(self) == *old(self),
            n > 0 ==> match *old(self) {
                RouterLogicState::Broadcast => a == RouteAction::All && *final(self) == *old(self),
                RouterLogicState::ScatterGather { .. } => a == RouteAction::All && *final(self)
                    == *old(self),
                RouterLogicState::RoundRobin { cursor } => a == RouteAction::One(cursor % n)
                    && *final(self) == (RouterLogicState::RoundRobin { cursor: cursor.wrapping_add(1) }),
                RouterLogicState::Random { seed } => a == RouteAction::One(
                    ((mix64(seed) as usize) % n) as usize,
                ) && *final(self) == (RouterLogicState::Random { seed: seed.wrapping_add(1) }),
                RouterLogicState::ConsistentHash => *final(self) == *old(self) && match key {
                    Some(k) => a == RouteAction::One(((mix64(k) as usize) % n) as usize),
                    None => a == (RouteAction::MissingKey { has_reply }),
                },
                RouterLogicState::SmallestMailbox { slots } => exists|b: usize|
                    a == RouteAction::One(b) && b < n && (forall|j: int|
                        0 <= j < b ==> slots@[j] > slots@[b as int]) && (forall|j: int|
                        0 <= j < n ==> slots@[b as int] <= slots@[j])
                        && (*final(self) matches RouterLogicState::SmallestMailbox { slots: s2 }
                        && s2@ == slots@.update(b as int, slots@[b as int].wrapping_add(1))),
                RouterLogicState::TailChopping { cursor, interval, within } => *final(self) == (
                RouterLogicState::TailChopping { cursor: cursor.wrapping_add(1), interval, within })
                    && if !has_reply || interval == 0 {
                    a == RouteAction::One(cursor % n)
                } else {
                    a == (RouteAction::OneThenRetry {
                        primary: cursor % n,
                        secondary: (((cursor % n) + 1) % (n as int)) as usize,
                        after: interval,
                    })
                },
            },
    {
        if n == 0 {
            return RouteAction::Nowhere;
        }
        match self {
            RouterLogicState::Broadcast => RouteAction::All,
            RouterLogicState::ScatterGather { .. } => RouteAction::All,
            RouterLogicState::RoundRobin { cursor } => {
                let idx = *cursor % n;
                *cursor = cursor.wrapping_add(1);
                RouteAction::One(idx)
            },
            RouterLogicState::Random { seed } => {
                let s = *seed;
                *seed = seed.wrapping_add(1);
                RouteAction::One((splitmix64(s) as usize) % n)
            },
            RouterLogicState::ConsistentHash => match key {
                Some(k) => RouteAction::One((splitmix64(k) as usize) % n),
                None => RouteAction::MissingKey { has_reply },
            },
            RouterLogicState::SmallestMailbox { slots } => {
                let mut best: usize = 0;
                let mut i: usize = 1;
                while i < n
                    invariant
                        slots@.len() == n,
                        1 <= i <= n,
                        best < i,
                        forall|j: int| 0 <= j < best ==> slots@[j] > slots@[best as int],
                        forall|j: int| 0 <= j < i ==> slots@[best as int] <= slots@[j],
                    decreases n - i,
                {
                    if slots[i] < slots[best] {
                        best = i;
                    }
                    i = i + 1;
                }
                let c = slots[best];
                slots.set(best, c.wrapping_add(1));
                RouteAction::One(best)
            },
            RouterLogicState::TailChopping { cursor, interval, .. } => {
                let idx = *cursor % n;
                *cursor = cursor.wrapping_add(1);
                if !has_reply || *interval == 0 {
                    RouteAction::One(idx)
                } else {
                    RouteAction::OneThenRetry { primary: idx, secondary: (idx + 1) % n, after: *interval }
                }
            },
        }
    }
}

} // verus!
