//! The event-sourced shard coordinator: commands become events, and
//! events, applied in order, rebuild the shard-to-region table.

use vstd::prelude::*;
use crate::str_map::StrMap;

verus! {

/// What the coordinator journals.
#[non_exhaustive]
pub enum CoordinatorEvent {
    ShardAllocated { shard_id: String, region: String },
    ShardRebalanced { shard_id: String, from_region: String, to_region: String },
    ShardRemoved { shard_id: String },
}

/// What the coordinator is asked to do.
#[non_exhaustive]
pub enum CoordinatorCommand {
    Allocate { shard_id: String, region: String },
    Rebalance { shard_id: String, to_region: String },
    Remove { shard_id: String },
}

/// Why a command was refused.
#[derive(Debug)]
#[non_exhaustive]
pub enum CoordinatorError {
    /// The shard has no allocation.
    UnknownShard(String),
}

/// The events a command turns into, over the allocation table `allocs`.
pub open spec fn command_events(allocs: Map<Seq<char>, String>, cmd: CoordinatorCommand) -> Result<
    Seq<CoordinatorEvent>,
    CoordinatorError,
> {
    match cmd {
        CoordinatorCommand::Allocate { shard_id, region } => Ok(
            seq![CoordinatorEvent::ShardAllocated { shard_id, region }],
        ),
        CoordinatorCommand::Rebalance { shard_id, to_region } => if allocs.contains_key(shard_id@) {
            Ok(
                seq![CoordinatorEvent::ShardRebalanced { shard_id, from_region: allocs[shard_id@], to_region }],
            )
        } else {
            Err(CoordinatorError::UnknownShard(shard_id))
        },
        CoordinatorCommand::Remove { shard_id } => if allocs.contains_key(shard_id@) {
            Ok(seq![CoordinatorEvent::ShardRemoved { shard_id }])
        } else {
            Err(CoordinatorError::UnknownShard(shard_id))
        },
    }
}

/// The allocation table after one event.
pub open spec fn applied(allocs: Map<Seq<char>, String>, event: CoordinatorEvent) -> Map<
    Seq<char>,
    String,
> {
    match event {
        CoordinatorEvent::ShardAllocated { shard_id, region } => allocs.insert(shard_id@, region),
        CoordinatorEvent::ShardRebalanced { shard_id, to_region, .. } => allocs.insert(
            shard_id@,
            to_region,
        ),
        CoordinatorEvent::ShardRemoved { shard_id } => allocs.remove(shard_id@),
    }
}

/// The allocation table after a run of events, applied in order.
pub open spec fn replayed(allocs: Map<Seq<char>, String>, events: Seq<CoordinatorEvent>) -> Map<
    Seq<char>,
    String,
>
    decreases events.len(),
{
    if events.len() == 0 {
        allocs
    } else {
        applied(replayed(allocs, events.drop_last()), events.last())
    }
}

/// The table that a command, once accepted, is meant to leave.
pub open spec fn command_effect(allocs: Map<Seq<char>, String>, cmd: CoordinatorCommand) -> Map<
    Seq<char>,
    String,
> {
    match cmd {
        CoordinatorCommand::Allocate { shard_id, region } => allocs.insert(shard_id@, region),
        CoordinatorCommand::Rebalance { shard_id, to_region } => allocs.insert(shard_id@, to_region),
        CoordinatorCommand::Remove { shard_id } => allocs.remove(shard_id@),
    }
}

/// Event-sourced coordinator state: shard id to region.
pub struct CoordinatorState {
    pub allocations: StrMap<String>,
}

impl CoordinatorState {
    /// The representation invariant.
    pub open spec fn wf(&self) -> bool {
        self.allocations.wf()
    }
}

impl Default for CoordinatorState {
    fn default() -> (s: Self)
        ensures
            s.wf(),
            s.allocations@ == Map::<Seq<char>, String>::empty(),
    {
        CoordinatorState { allocations: StrMap::new() }
    }
}

/// The event-sourced shard coordinator, known to the journal by its
/// persistence id.
pub struct PersistentShardCoordinator {
    persistence_id: String,
}

impl PersistentShardCoordinator {
    /// The id the journal files events under.
    pub closed spec fn id(&self) -> Seq<char> {
        self.persistence_id@
    }

    pub fn new(persistence_id: String) -> (c: Self)
        ensures
            c.id() == persistence_id@,
    {
        PersistentShardCoordinator { persistence_id }
    }

    pub fn persistence_id(&self) -> (s: String)
        ensures
            s@ == self.id(),
    {
        self.persistence_id.clone()
    }

    /// Turns a command into the events to journal, or refuses it.
    pub fn command_to_events(&self, state: &CoordinatorState, cmd: CoordinatorCommand) -> (r: Result<
        Vec<CoordinatorEvent>,
        CoordinatorError,
    >)
        requires
            state.wf(),
        ensures
            match r {
                Ok(events) => command_events(state.allocations@, cmd) == Ok::<
                    Seq<CoordinatorEvent>,
                    CoordinatorError,
                >(events@),
                Err(e) => command_events(state.allocations@, cmd) == Err::<
                    Seq<CoordinatorEvent>,
                    CoordinatorError,
                >(e),
            },
    {
        match cmd {
            CoordinatorCommand::Allocate { shard_id, region } => {
                let v = vec![CoordinatorEvent::ShardAllocated { shard_id, region }];
                assert(v@ =~= seq![CoordinatorEvent::ShardAllocated { shard_id, region }]);
                Ok(v)
            },
            CoordinatorCommand::Rebalance { shard_id, to_region } => {
                match state.allocations.get(shard_id.as_str()) {
                    Some(from) => {
                        let from_region = from.clone();
                        let v = vec![
                            CoordinatorEvent::ShardRebalanced { shard_id, from_region, to_region },
                        ];
                        assert(v@ =~= seq![
                            CoordinatorEvent::ShardRebalanced { shard_id, from_region, to_region },
                        ]);
                        Ok(v)
                    },
                    None => Err(CoordinatorError::UnknownShard(shard_id)),
                }
            },
            CoordinatorCommand::Remove { shard_id } => {
                if !state.allocations.contains_key(shard_id.as_str()) {
                    return Err(CoordinatorError::UnknownShard(shard_id));
                }
                let v = vec![CoordinatorEvent::ShardRemoved { shard_id }];
                assert(v@ =~= seq![CoordinatorEvent::ShardRemoved { shard_id }]);
                Ok(v)
            },
        }
    }

    /// Applies one journaled event to the state.
    pub fn apply_event(state: &mut CoordinatorState, event: &CoordinatorEvent)
        requires
            old(state).wf(),
        ensures
            final(state).wf(),
            final(state).allocations@ == applied(old(state).allocations@, *event),
    {
        match event {
            CoordinatorEvent::ShardAllocated { shard_id, region } => {
                state.allocations.insert(shard_id.clone(), region.clone());
            },
            CoordinatorEvent::ShardRebalanced { shard_id, to_region, .. } => {
                state.allocations.insert(shard_id.clone(), to_region.clone());
            },
            CoordinatorEvent::ShardRemoved { shard_id } => {
                state.allocations.remove(shard_id.as_str());
            },
        }
    }
}

/// An accepted command's events, once applied, leave the table the command
/// asks for; a refused command names a shard that has no allocation.
pub proof fn lemma_command_then_apply(allocs: Map<Seq<char>, String>, cmd: CoordinatorCommand)
    ensures
        match command_events(allocs, cmd) {
            Ok(events) => replayed(allocs, events) == command_effect(allocs, cmd),
            Err(CoordinatorError::UnknownShard(id)) => !allocs.contains_key(id@),
        },
{
    match command_events(allocs, cmd) {
        Ok(events) => {
            reveal_with_fuel(replayed, 2);
            assert(events.drop_last() =~= Seq::<CoordinatorEvent>::empty());
        },
        Err(_) => {},
    }
}

/// Replaying a journal in two parts gives what replaying it whole gives:
/// the state rebuilt after a restart is the state that was left.
pub proof fn lemma_replay_concat(
    allocs: Map<Seq<char>, String>,
    a: Seq<CoordinatorEvent>,
    b: Seq<CoordinatorEvent>,
)
    ensures
        replayed(allocs, a + b) == replayed(replayed(allocs, a), b),
    decreases b.len(),
{
    if b.len() == 0 {
        assert(a + b =~= a);
    } else {
        assert((a + b).drop_last() =~= a + b.drop_last());
        assert((a + b).last() == b.last());
        lemma_replay_concat(allocs, a, b.drop_last());
    }
}

/// A rebalance event records the region the shard moved from.
pub proof fn lemma_rebalance_records_origin(
    allocs: Map<Seq<char>, String>,
    shard_id: String,
    to_region: String,
)
    requires
        allocs.contains_key(shard_id@),
    ensures
        command_events(allocs, CoordinatorCommand::Rebalance { shard_id, to_region }) == Ok::<
            Seq<CoordinatorEvent>,
            CoordinatorError,
        >(
            seq![CoordinatorEvent::ShardRebalanced { shard_id, from_region: allocs[shard_id@], to_region }],
        ),
{
}

/// The local, in-memory allocation table of the shard coordinator:
/// shard id to region.
pub struct ShardCoordinator {
    allocations: StrMap<String>,
}

impl ShardCoordinator {
    /// The region of each allocated shard.
    pub closed spec fn view(&self) -> Map<Seq<char>, Seq<char>> {
        self.allocations@.map_values(|r: String| r@)
    }

    pub closed spec fn wf(&self) -> bool {
        self.allocations.wf()
    }

    /// No shard allocated.
    pub fn new() -> (c: Self)
        ensures
            c.wf(),
            c.view() == Map::<Seq<char>, Seq<char>>::empty(),
    {
        let c = ShardCoordinator { allocations: StrMap::new() };
        assert(c.view() =~= Map::<Seq<char>, Seq<char>>::empty());
        c
    }

    /// Moves `shard` to `region` (allocating it if it was not).
    pub fn rebalance(&mut self, shard: &str, region: String)
        requires
            old(self).wf(),
        ensures
            final(self).wf(),
            final(self).view() == old(self).view().insert(shard@, region@),
    {
        let ghost before = self.view();
        let ghost r = region@;
        self.allocations.insert(String::from_str(shard), region);
        assert(self.view() =~= before.insert(shard@, r));
    }

    /// The region of `shard`, if it is allocated.
    pub fn region_for(&self, shard: &str) -> (r: Option<String>)
        requires
            self.wf(),
        ensures
            match r {
                Some(x) => self.view().contains_key(shard@) && x@ == self.view()[shard@],
                None => !self.view().contains_key(shard@),
            },
    {
        match self.allocations.get(shard) {
            Some(x) => Some(x.clone()),
            None => None,
        }
    }
}

/// Projects a state rebuilt from the journal onto a coordinator: every
/// allocation of the state is set on the target (which keeps the
/// allocations of shards the state does not know).
pub fn project_into(state: &CoordinatorState, target: &mut ShardCoordinator)
    requires
        state.wf(),
        old(target).wf(),
    ensures
        final(target).wf(),
        final(target).view() == old(target).view().union_prefer_right(
            state.allocations@.map_values(|r: String| r@),
        ),
{
    let n = state.allocations.len();
    let ghost src = state.allocations@.map_values(|r: String| r@);
    let ghost pairs = state.allocations.pairs();
    let mut i: usize = 0;
    while i < n
        invariant
            state.wf(),
            target.wf(),
            n == pairs.len(),
            pairs == state.allocations.pairs(),
            src == state.allocations@.map_values(|r: String| r@),
            i <= n,
            forall|k: Seq<char>| #[trigger] target.view().contains_key(k) <==> (old(target).view().contains_key(k)
                || exists|j: int| 0 <= j < i && #[trigger] pairs[j].0@ == k),
            forall|k: Seq<char>| #[trigger] target.view().contains_key(k) ==> target.view()[k] == (if exists|j: int|
                0 <= j < i && #[trigger] pairs[j].0@ == k {
                src[k]
            } else {
                old(target).view()[k]
            }),
        decreases n - i,
    {
        let shard = state.allocations.key_at(i);
        let region = state.allocations.value_at(i);
        proof {
            crate::str_map::lemma_pairs_at(pairs, i as int);
        }
        target.rebalance(shard.as_str(), region.clone());
        proof {
            assert forall|k: Seq<char>| #[trigger] target.view().contains_key(k) <==> (old(target).view().contains_key(k)
                || exists|j: int| 0 <= j < i + 1 && #[trigger] pairs[j].0@ == k) by {
                if k == pairs[i as int].0@ {
                    assert(pairs[i as int].0@ == k);
                }
                if exists|j: int| 0 <= j < i + 1 && #[trigger] pairs[j].0@ == k {
                    let j = choose|j: int| 0 <= j < i + 1 && #[trigger] pairs[j].0@ == k;
                    if j < i {
                        assert(pairs[j].0@ == k);
                    }
                }
            }
            assert forall|k: Seq<char>| #[trigger] target.view().contains_key(k) implies target.view()[k] == (if exists|j: int|
                0 <= j < i + 1 && #[trigger] pairs[j].0@ == k {
                src[k]
            } else {
                old(target).view()[k]
            }) by {
                if k == pairs[i as int].0@ {
                    assert(pairs[i as int].0@ == k);
                } else if exists|j: int| 0 <= j < i + 1 && #[trigger] pairs[j].0@ == k {
                    let j = choose|j: int| 0 <= j < i + 1 && #[trigger] pairs[j].0@ == k;
                    assert(j < i);
                    assert(pairs[j].0@ == k);
                }
            }
        }
        i = i + 1;
    }
    proof {
        assert forall|k: Seq<char>| state.allocations@.contains_key(k) implies exists|j: int|
            0 <= j < n && #[trigger] pairs[j].0@ == k by {
            crate::str_map::lemma_pairs_key(pairs, k);
            let j = crate::str_map::pairs_index(pairs, k);
            assert(pairs[j].0@ == k);
        }
        assert forall|k: Seq<char>| (exists|j: int| 0 <= j < n && #[trigger] pairs[j].0@ == k) implies state.allocations@.contains_key(k) by {
            let j = choose|j: int| 0 <= j < n && #[trigger] pairs[j].0@ == k;
            crate::str_map::lemma_pairs_at(pairs, j);
        }
        assert(target.view() =~= old(target).view().union_prefer_right(src));
    }
}

} // verus!
