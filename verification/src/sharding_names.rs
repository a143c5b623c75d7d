//! Naming of sharded entity actors and of the pools they run on, and the
//! per-key counters behind region instances and entity incarnations.

use vstd::prelude::*;
use crate::str_map::StrMap;
use crate::paths::{sanitize, sanitized};
use crate::text::{ends_with_spec, debug_quoted, decimal, digit_char, push_debug_str, push_decimal, str_eq};

verus! {

/// `<type>-<sanitized entity id>`.
pub open spec fn entity_base_name(entity_type: Seq<char>, entity_id: Seq<char>) -> Seq<char> {
    entity_type + "-"@ + sanitized(entity_id)
}

/// The actor name of an entity: the base name for the first incarnation in
/// the first region instance, else the base name tagged with both numbers.
pub open spec fn entity_actor_name_of(
    entity_type: Seq<char>,
    entity_id: Seq<char>,
    region_instance: nat,
    incarnation: nat,
) -> Seq<char> {
    let base = entity_base_name(entity_type, entity_id);
    if region_instance == 1 && incarnation == 1 {
        base
    } else {
        base + "__r"@ + decimal(region_instance) + "__inc"@ + decimal(incarnation)
    }
}

pub fn entity_actor_name(entity_type: &str, entity_id: &str, region_instance: u32, incarnation: u32) -> (r: String)
    ensures
        r@ == entity_actor_name_of(entity_type@, entity_id@, region_instance as nat, incarnation as nat),
{
    let mut s = String::from_str(entity_type);
    s.append("-");
    let clean = sanitize(entity_id);
    s.append(clean.as_str());
    if region_instance == 1 && incarnation == 1 {
        return s;
    }
    s.append("__r");
    push_decimal(&mut s, region_instance as u64);
    s.append("__inc");
    push_decimal(&mut s, incarnation as u64);
    s
}

/// The interpreter-pool role of a region's entities: `sharding-<type>` for
/// the default role, else the role given.
pub open spec fn entity_pool_role_of(entity_type: Seq<char>, role: Seq<char>) -> Seq<char> {
    if role == "default"@ {
        "sharding-"@ + entity_type
    } else {
        role
    }
}

pub fn entity_pool_role(entity_type: &str, role: &str) -> (r: String)
    ensures
        r@ == entity_pool_role_of(entity_type@, role@),
{
    if str_eq(role, "default") {
        let mut s = String::from_str("sharding-");
        s.append(entity_type);
        s
    } else {
        String::from_str(role)
    }
}

/// The shard allocation policy a region is configured with.
#[derive(Debug, Clone, Copy, PartialEq, Eq, Structural)]
pub enum AllocationStrategyName {
    LeastShards,
    Pinned,
}

pub open spec fn allocation_strategy_named(s: Seq<char>) -> Option<AllocationStrategyName> {
    if s == "least-shards"@ {
        Some(AllocationStrategyName::LeastShards)
    } else if s == "pinned"@ {
        Some(AllocationStrategyName::Pinned)
    } else {
        None
    }
}

pub fn parse_allocation_strategy(s: &str) -> (r: Option<AllocationStrategyName>)
    ensures
        r == allocation_strategy_named(s@),
{
    if str_eq(s, "least-shards") {
        Some(AllocationStrategyName::LeastShards)
    } else if str_eq(s, "pinned") {
        Some(AllocationStrategyName::Pinned)
    } else {
        None
    }
}

/// Counters by key, each starting at zero.
pub struct InstanceCounters {
    counts: StrMap<u32>,
}

/// The counter of `key`; zero until first bumped.
pub open spec fn counter_of(m: Map<Seq<char>, u32>, key: Seq<char>) -> nat {
    if m.contains_key(key) {
        m[key] as nat
    } else {
        0
    }
}

impl View for InstanceCounters {
    type V = Map<Seq<char>, u32>;

    closed spec fn view(&self) -> Map<Seq<char>, u32> {
        self.counts@
    }
}

impl InstanceCounters {
    pub closed spec fn wf(&self) -> bool {
        self.counts.wf()
    }

    pub fn new() -> (c: Self)
        ensures
            c.wf(),
            c@ == Map::<Seq<char>, u32>::empty(),
    {
        InstanceCounters { counts: StrMap::new() }
    }

    /// Bumps the counter of `key` and returns its new value; the first
    /// value of every key is 1.
    pub fn bump(&mut self, key: &str) -> (n: u32)
        requires
            old(self).wf(),
            counter_of(old(self)@, key@) < u32::MAX,
        ensures
            final(self).wf(),
            n == counter_of(old(self)@, key@) + 1,
            final(self)@ == old(self)@.insert(key@, n),
    {
        let cur = match self.counts.get(key) {
            Some(c) => *c,
            None => 0,
        };
        let n = cur + 1;
        self.counts.insert(String::from_str(key), n);
        n
    }
}

/// The refusal of an unknown allocation strategy name, which it shows as
/// `{:?}` does.
pub open spec fn unknown_allocation_strategy_message(name: Seq<char>) -> Seq<char> {
    "unknown allocation_strategy "@ + debug_quoted(name) + ": expected `least-shards` or `pinned`"@
}

/// A sharded region's settings. The passivation idle timeout, a fraction
/// of seconds, is kept in milliseconds.
pub struct ShardingSettings {
    pub allocation_strategy: AllocationStrategyName,
    pub rebalance_threshold: usize,
    pub max_simultaneous_rebalance: usize,
    pub passivation_idle_timeout_ms: Option<u64>,
    pub remember_entities: bool,
    pub number_of_shards: Option<u64>,
}

impl Default for ShardingSettings {
    /// Least-shards allocation, rebalancing at a gap of 1 and at most 3
    /// shards at a time, no passivation, no remembered entities, no fixed
    /// shard count.
    fn default() -> (s: Self)
        ensures
            s.allocation_strategy == AllocationStrategyName::LeastShards,
            s.rebalance_threshold == 1,
            s.max_simultaneous_rebalance == 3,
            s.passivation_idle_timeout_ms is None,
            !s.remember_entities,
            s.number_of_shards is None,
    {
        ShardingSettings {
            allocation_strategy: AllocationStrategyName::LeastShards,
            rebalance_threshold: 1,
            max_simultaneous_rebalance: 3,
            passivation_idle_timeout_ms: None,
            remember_entities: false,
            number_of_shards: None,
        }
    }
}

impl ShardingSettings {
    /// Settings with the strategy named `allocation_strategy`; refused, with
    /// the message naming it, when it is neither `least-shards` nor
    /// `pinned`.
    pub fn new(
        allocation_strategy: &str,
        rebalance_threshold: usize,
        max_simultaneous_rebalance: usize,
        passivation_idle_timeout_ms: Option<u64>,
        remember_entities: bool,
        number_of_shards: Option<u64>,
    ) -> (r: Result<Self, String>)
        ensures
            match allocation_strategy_named(allocation_strategy@) {
                Some(k) => r matches Ok(s) && s.allocation_strategy == k && s.rebalance_threshold
                    == rebalance_threshold && s.max_simultaneous_rebalance == max_simultaneous_rebalance
                    && s.passivation_idle_timeout_ms == passivation_idle_timeout_ms
                    && s.remember_entities == remember_entities && s.number_of_shards
                    == number_of_shards,
                None => r matches Err(m) && m@ == unknown_allocation_strategy_message(
                    allocation_strategy@,
                ),
            },
    {
        match parse_allocation_strategy(allocation_strategy) {
            Some(k) => Ok(
                ShardingSettings {
                    allocation_strategy: k,
                    rebalance_threshold,
                    max_simultaneous_rebalance,
                    passivation_idle_timeout_ms,
                    remember_entities,
                    number_of_shards,
                },
            ),
            None => {
                let mut m = String::from_str("unknown allocation_strategy ");
                push_debug_str(&mut m, allocation_strategy);
                m.append(": expected `least-shards` or `pinned`");
                Err(m)
            },
        }
    }
}

/// A live entity: its actor name and the handle that reaches it.
pub struct EntityHandle<H> {
    pub name: String,
    pub handle: H,
}

/// A region's live entities by entity id, and how many times each id was
/// spawned.
pub struct EntityTable<H> {
    entities: StrMap<EntityHandle<H>>,
    incarnations: InstanceCounters,
}

impl<H> EntityTable<H> {
    /// The live entity of each id.
    pub closed spec fn entities_view(&self) -> Map<Seq<char>, EntityHandle<H>> {
        self.entities@
    }

    /// How many times each id was spawned.
    pub closed spec fn incarnations_view(&self) -> Map<Seq<char>, u32> {
        self.incarnations@
    }

    pub closed spec fn wf(&self) -> bool {
        self.entities.wf() && self.incarnations.wf()
    }

    /// No entity, no incarnation.
    pub fn new() -> (t: Self)
        ensures
            t.wf(),
            t.entities_view() == Map::<Seq<char>, EntityHandle<H>>::empty(),
            t.incarnations_view() == Map::<Seq<char>, u32>::empty(),
    {
        EntityTable { entities: StrMap::new(), incarnations: InstanceCounters::new() }
    }

    /// The live entity of `entity_id`, spawning it through `spawn` when
    /// there is none: a live entity is returned as it is, with nothing
    /// counted; otherwise the id's incarnation is bumped and `spawn` is
    /// asked to start an actor under the entity's name (for the region
    /// instance `region_instance`). What `spawn` starts is recorded and
    /// returned; when it starts nothing, nothing is recorded (the bumped
    /// incarnation stays).
    pub fn ensure_entity<F: FnOnce(&String) -> Option<H>>(
        &mut self,
        entity_type: &str,
        entity_id: &str,
        region_instance: u32,
        spawn: F,
    ) -> (r: Option<&EntityHandle<H>>)
        requires
            old(self).wf(),
            counter_of(old(self).incarnations_view(), entity_id@) < u32::MAX,
            forall|name: &String| spawn.requires((name,)),
        ensures
            final(self).wf(),
            old(self).entities_view().contains_key(entity_id@) ==> {
                &&& r == Some(&old(self).entities_view()[entity_id@])
                &&& final(self).entities_view() == old(self).entities_view()
                &&& final(self).incarnations_view() == old(self).incarnations_view()
            },
            !old(self).entities_view().contains_key(entity_id@) ==> {
                let n = counter_of(old(self).incarnations_view(), entity_id@) + 1;
                let name = entity_actor_name_of(entity_type@, entity_id@, region_instance as nat, n);
                &&& final(self).incarnations_view() == old(self).incarnations_view().insert(
                    entity_id@,
                    n as u32,
                )
                &&& exists|s: String, out: Option<H>|
                    s@ == name && spawn.ensures((&s,), out) && match out {
                        None => r is None && final(self).entities_view() == old(
                            self,
                        ).entities_view(),
                        Some(h) => final(self).entities_view() == old(self).entities_view().insert(
                            entity_id@,
                            EntityHandle { name: s, handle: h },
                        ) && r == Some(&final(self).entities_view()[entity_id@]),
                    }
            },
    {
        if self.entities.contains_key(entity_id) {
            return self.entities.get(entity_id);
        }
        let n = self.incarnations.bump(entity_id);
        let name = entity_actor_name(entity_type, entity_id, region_instance, n);
        let out = spawn(&name);
        match out {
            None => None,
            Some(h) => {
                let ghost s = name;
                self.entities.insert(String::from_str(entity_id), EntityHandle { name, handle: h });
                let r = self.entities.get(entity_id);
                proof {
                    assert(self.entities_view().contains_key(entity_id@));
                }
                r
            },
        }
    }

    /// Forgets the live entity of `entity_id` (it was passivated),
    /// returning it so that its actor can be stopped. Its incarnation count
    /// stays.
    pub fn remove_entity(&mut self, entity_id: &str) -> (r: Option<EntityHandle<H>>)
        requires
            old(self).wf(),
        ensures
            final(self).wf(),
            final(self).entities_view() == old(self).entities_view().remove(entity_id@),
            final(self).incarnations_view() == old(self).incarnations_view(),
            match r {
                Some(e) => old(self).entities_view().contains_key(entity_id@) && e == old(
                    self,
                ).entities_view()[entity_id@],
                None => !old(self).entities_view().contains_key(entity_id@),
            },
    {
        self.entities.remove(entity_id)
    }
}

/// What a Python shard-id extractor answered: a string (or the `str()`
/// of any other object), or an integer.
pub enum ShardIdAnswer {
    Text(String),
    Int(i64),
}

/// The number of shards an integer answer is reduced by: the configured
/// number, 16 when none is, and never less than 1.
pub open spec fn shard_modulus(number_of_shards: Option<u64>) -> nat {
    match number_of_shards {
        Some(n) => if n == 0 {
            1
        } else {
            n as nat
        },
        None => 16,
    }
}

/// The absolute value of `i`.
pub open spec fn abs_of(i: i64) -> nat {
    if i < 0 {
        (-i) as nat
    } else {
        i as nat
    }
}

/// The shard id of an extractor's answer: a string is the id itself; an
/// integer is reduced, by its absolute value, modulo the shard count and
/// written in decimal.
pub fn shard_id_of(answer: ShardIdAnswer, number_of_shards: Option<u64>) -> (r: String)
    ensures
        match answer {
            ShardIdAnswer::Text(s) => r@ == s@,
            ShardIdAnswer::Int(i) => r@ == decimal(abs_of(i) % shard_modulus(number_of_shards)),
        },
{
    match answer {
        ShardIdAnswer::Text(s) => s,
        ShardIdAnswer::Int(i) => {
            let n: u64 = match number_of_shards {
                Some(n) => if n == 0 {
                    1
                } else {
                    n
                },
                None => 16,
            };
            let a: u64 = if i < 0 {
                let w: i128 = -(i as i128);
                w as u64
            } else {
                i as u64
            };
            let mut out = String::new();
            push_decimal(&mut out, a % n);
            out
        },
    }
}

/// The id of the shard region of `entity_type` hosted at `address`:
/// `<type>@<address>`.
pub open spec fn region_id_of(entity_type: Seq<char>, address: Seq<char>) -> Seq<char> {
    entity_type + "@"@ + address
}

/// Builds the id of the shard region of `entity_type` at `address`.
pub fn region_id(entity_type: &str, address: &str) -> (r: String)
    ensures
        r@ == region_id_of(entity_type@, address@),
{
    let mut r = String::from_str(entity_type);
    r.append("@");
    r.append(address);
    r
}

/// Every decimal representation has at least one digit.
proof fn lemma_decimal_nonempty(n: nat)
    ensures
        decimal(n).len() >= 1,
    decreases n,
{
    if n >= 10 {
        lemma_decimal_nonempty(n / 10);
    }
}

/// Different numbers are written differently.
proof fn lemma_decimal_injective(a: nat, b: nat)
    requires
        decimal(a) == decimal(b),
    ensures
        a == b,
    decreases a,
{
    let da = decimal(a);
    if a < 10 && b < 10 {
        assert(da[0] == decimal(b)[0]);
        assert(((48 + a) as u8) as char == ((48 + b) as u8) as char);
    } else if a < 10 {
        lemma_decimal_nonempty(b / 10);
        assert(decimal(b).len() >= 2);
    } else if b < 10 {
        lemma_decimal_nonempty(a / 10);
        assert(da.len() >= 2);
    } else {
        assert(da.last() == decimal(b).last());
        assert(da.drop_last() =~= decimal(a / 10));
        assert(decimal(b).drop_last() =~= decimal(b / 10));
        lemma_decimal_injective(a / 10, b / 10);
        assert(((48 + a % 10) as u8) as char == ((48 + b % 10) as u8) as char);
    }
}

/// No digit of a decimal representation is an underscore.
proof fn lemma_decimal_digits(n: nat)
    ensures
        forall|j: int| 0 <= j < decimal(n).len() ==> #[trigger] decimal(n)[j] != '_',
    decreases n,
{
    if n >= 10 {
        lemma_decimal_digits(n / 10);
        let d = decimal(n);
        assert forall|j: int| 0 <= j < d.len() implies #[trigger] d[j] != '_' by {
            if j < d.len() - 1 {
                assert(d[j] == decimal(n / 10)[j]);
            } else {
                assert(d[j] == digit_char(n % 10));
                assert(((48 + n % 10) as u8) as char != '_');
            }
        }
    } else {
        assert(decimal(n)[0] == digit_char(n));
        assert(((48 + n) as u8) as char != '_');
    }
}

/// The suffix `__r<r>__inc<i>`.
spec fn region_tag(region_instance: nat, incarnation: nat) -> Seq<char> {
    "__r"@ + decimal(region_instance) + "__inc"@ + decimal(incarnation)
}

/// A suffix `__r<r>__inc<i>` gives back both of its numbers.
proof fn lemma_region_tag_injective(r1: nat, i1: nat, r2: nat, i2: nat)
    requires
        region_tag(r1, i1) == region_tag(r2, i2),
    ensures
        r1 == r2,
        i1 == i2,
{
    reveal_strlit("__r");
    reveal_strlit("__inc");
    let t1 = region_tag(r1, i1);
    let t2 = region_tag(r2, i2);
    let d1 = decimal(r1);
    let d2 = decimal(r2);
    let e1 = decimal(i1);
    let e2 = decimal(i2);
    lemma_decimal_digits(r1);
    lemma_decimal_digits(r2);
    assert(t1 =~= "__r"@ + d1 + "__inc"@ + e1);
    assert(t2 =~= "__r"@ + d2 + "__inc"@ + e2);
    if d1.len() < d2.len() {
        assert(t1[3 + d1.len() as int] == '_');
        assert(t2[3 + d1.len() as int] == d2[d1.len() as int]);
    } else if d2.len() < d1.len() {
        assert(t2[3 + d2.len() as int] == '_');
        assert(t1[3 + d2.len() as int] == d1[d2.len() as int]);
    } else {
        assert forall|j: int| 0 <= j < d1.len() implies d1[j] == d2[j] by {
            assert(t1[3 + j] == d1[j]);
            assert(t2[3 + j] == d2[j]);
        }
        assert(d1 =~= d2);
        lemma_decimal_injective(r1, r2);
        let off = 8 + d1.len();
        assert(e1.len() == e2.len());
        assert forall|j: int| 0 <= j < e1.len() implies e1[j] == e2[j] by {
            assert(t1[off + j] == e1[j]);
            assert(t2[off + j] == e2[j]);
        }
        assert(e1 =~= e2);
        lemma_decimal_injective(i1, i2);
    }
}

/// The first incarnation of an entity in the first region instance runs
/// under the bare name `<type>-<id>`; every other one under a name that
/// ends with `__r<region instance>__inc<incarnation>`. Two spawns of one
/// entity with a different region instance or incarnation never share a
/// name, so a second region of one type, or a respawn, never collides with
/// an earlier actor.
pub proof fn lemma_entity_names_tagged_by_region(
    entity_type: Seq<char>,
    entity_id: Seq<char>,
    r1: nat,
    i1: nat,
    r2: nat,
    i2: nat,
)
    ensures
        r1 == 1 && i1 == 1 ==> entity_actor_name_of(entity_type, entity_id, r1, i1)
            == entity_type + "-"@ + sanitized(entity_id),
        !(r1 == 1 && i1 == 1) ==> ends_with_spec(
            entity_actor_name_of(entity_type, entity_id, r1, i1),
            "__r"@ + decimal(r1) + "__inc"@ + decimal(i1),
        ),
        (r1 != r2 || i1 != i2) ==> entity_actor_name_of(entity_type, entity_id, r1, i1)
            != entity_actor_name_of(entity_type, entity_id, r2, i2),
{
    reveal_strlit("__r");
    reveal_strlit("__inc");
    let base = entity_base_name(entity_type, entity_id);
    let n1 = entity_actor_name_of(entity_type, entity_id, r1, i1);
    let n2 = entity_actor_name_of(entity_type, entity_id, r2, i2);
    let t1 = region_tag(r1, i1);
    let t2 = region_tag(r2, i2);
    lemma_decimal_nonempty(r1);
    lemma_decimal_nonempty(r2);
    lemma_decimal_nonempty(i1);
    lemma_decimal_nonempty(i2);
    let bare1 = r1 == 1 && i1 == 1;
    let bare2 = r2 == 1 && i2 == 1;
    if !bare1 {
        assert(n1 =~= base + t1);
        assert(n1.subrange(n1.len() - t1.len(), n1.len() as int) =~= t1);
    }
    if !bare2 {
        assert(n2 =~= base + t2);
    }
    if (r1 != r2 || i1 != i2) && n1 == n2 {
        if bare1 {
            assert(n2.len() > base.len());
        } else if bare2 {
            assert(n1.len() > base.len());
        } else {
            assert(t1 =~= n1.skip(base.len() as int));
            assert(t2 =~= n2.skip(base.len() as int));
            lemma_region_tag_injective(r1, i1, r2, i2);
        }
    }
}

} // verus!
