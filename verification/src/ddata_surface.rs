//! The distributed-data classes that the Python facade exposes.

use vstd::prelude::*;
use crate::text::str_eq;

verus! {

/// Names of every CRDT class exposed under `atomr.ddata`.
pub const CRDT_CLASSES: [&'static str; 10] = [
    "GCounter",
    "PNCounter",
    "GSet",
    "ORSet",
    "LwwRegister",
    "Flag",
    "ORMap",
    "LWWMap",
    "PNCounterMap",
    "ORMultiMap",
];

/// Names of the replicator-related classes exposed under `atomr.ddata`.
pub const REPLICATOR_CLASSES: [&'static str; 5] = [
    "Replicator",
    "ReplicatorSubscription",
    "ReadConsistency",
    "WriteConsistency",
    "DurableStore",
];

/// Names of the lower-level helpers exposed under `atomr.ddata`.
pub const HELPER_CLASSES: [&'static str; 3] = ["PruningState", "WriteAggregator", "ReadAggregator"];

/// Total number of Python classes exposed: the sum of the three lists.
pub fn exposed_class_count() -> (n: usize)
    ensures
        n == CRDT_CLASSES@.len() + REPLICATOR_CLASSES@.len() + HELPER_CLASSES@.len(),
        n == 18,
{
    CRDT_CLASSES.len() + REPLICATOR_CLASSES.len() + HELPER_CLASSES.len()
}

/// The CRDT family stored under a replicator key.
#[derive(Clone, Copy, Debug, PartialEq, Eq, Structural)]
pub enum CrdtKind {
    GCounter,
    PNCounter,
    GSet,
    ORSet,
    LwwRegister,
    Flag,
    ORMap,
    LWWMap,
    PNCounterMap,
    ORMultiMap,
}

/// The kind at position `i` of `CRDT_CLASSES`.
pub open spec fn crdt_kind_at(i: int) -> CrdtKind {
    if i == 0 {
        CrdtKind::GCounter
    } else if i == 1 {
        CrdtKind::PNCounter
    } else if i == 2 {
        CrdtKind::GSet
    } else if i == 3 {
        CrdtKind::ORSet
    } else if i == 4 {
        CrdtKind::LwwRegister
    } else if i == 5 {
        CrdtKind::Flag
    } else if i == 6 {
        CrdtKind::ORMap
    } else if i == 7 {
        CrdtKind::LWWMap
    } else if i == 8 {
        CrdtKind::PNCounterMap
    } else {
        CrdtKind::ORMultiMap
    }
}

/// The kind whose Python class is called `name`, if any: the one at the
/// position of `name` in `CRDT_CLASSES`.
pub open spec fn crdt_kind_named(name: Seq<char>) -> Option<CrdtKind> {
    if exists|i: int| 0 <= i < CRDT_CLASSES@.len() && CRDT_CLASSES@[i]@ == name {
        Some(crdt_kind_at(choose|i: int| 0 <= i < CRDT_CLASSES@.len() && CRDT_CLASSES@[i]@ == name))
    } else {
        None
    }
}

impl CrdtKind {
    /// The kind of the Python class called `name`.
    pub fn from_class(name: &str) -> (r: Option<Self>)
        ensures
            r == crdt_kind_named(name@),
    {
        let mut i: usize = 0;
        while i < CRDT_CLASSES.len()
            invariant
                i <= CRDT_CLASSES@.len(),
                forall|j: int| 0 <= j < i ==> CRDT_CLASSES@[j]@ != name@,
            decreases CRDT_CLASSES@.len() - i,
        {
            if str_eq(CRDT_CLASSES[i], name) {
                proof {
                    lemma_crdt_classes_distinct();
                }
                return Some(crdt_kind_from_index(i));
            }
            i = i + 1;
        }
        None
    }
}

fn crdt_kind_from_index(i: usize) -> (k: CrdtKind)
    ensures
        k == crdt_kind_at(i as int),
{
    if i == 0 {
        CrdtKind::GCounter
    } else if i == 1 {
        CrdtKind::PNCounter
    } else if i == 2 {
        CrdtKind::GSet
    } else if i == 3 {
        CrdtKind::ORSet
    } else if i == 4 {
        CrdtKind::LwwRegister
    } else if i == 5 {
        CrdtKind::Flag
    } else if i == 6 {
        CrdtKind::ORMap
    } else if i == 7 {
        CrdtKind::LWWMap
    } else if i == 8 {
        CrdtKind::PNCounterMap
    } else {
        CrdtKind::ORMultiMap
    }
}

/// No two exposed CRDT classes share a name.
pub proof fn lemma_crdt_classes_distinct()
    ensures
        forall|i: int, j: int|
            0 <= i < CRDT_CLASSES@.len() && 0 <= j < CRDT_CLASSES@.len() && i != j
                ==> #[trigger] CRDT_CLASSES@[i]@ != #[trigger] CRDT_CLASSES@[j]@,
{
    reveal_strlit("GCounter");
    reveal_strlit("PNCounter");
    reveal_strlit("GSet");
    reveal_strlit("ORSet");
    reveal_strlit("LwwRegister");
    reveal_strlit("Flag");
    reveal_strlit("ORMap");
    reveal_strlit("LWWMap");
    reveal_strlit("PNCounterMap");
    reveal_strlit("ORMultiMap");
    assert forall|i: int, j: int|
        0 <= i < CRDT_CLASSES@.len() && 0 <= j < CRDT_CLASSES@.len() && i != j
            implies #[trigger] CRDT_CLASSES@[i]@ != #[trigger] CRDT_CLASSES@[j]@ by {
        if CRDT_CLASSES@[i]@ == CRDT_CLASSES@[j]@ {
            assert(CRDT_CLASSES@[i]@.len() == CRDT_CLASSES@[j]@.len());
            assert(CRDT_CLASSES@[i]@[0] == CRDT_CLASSES@[j]@[0]);
            assert(CRDT_CLASSES@[i]@[1] == CRDT_CLASSES@[j]@[1]);
            assert(CRDT_CLASSES@[i]@[2] == CRDT_CLASSES@[j]@[2]);
        }
    }
}

/// Every exposed CRDT class resolves to the kind at its position, so
/// `from_class` accepts exactly the names of `CRDT_CLASSES`.
pub proof fn lemma_every_crdt_class_resolves(i: int)
    requires
        0 <= i < CRDT_CLASSES@.len(),
    ensures
        crdt_kind_named(CRDT_CLASSES@[i]@) == Some(crdt_kind_at(i)),
{
    lemma_crdt_classes_distinct();
    let name = CRDT_CLASSES@[i]@;
    let j = choose|j: int| 0 <= j < CRDT_CLASSES@.len() && CRDT_CLASSES@[j]@ == name;
    assert(j == i);
}

/// The value type an `ORMap` instance is fixed to when it is made.
#[derive(Clone, Copy, Debug, PartialEq, Eq, Structural)]
pub enum OrMapValueKind {
    LwwRegister,
    PNCounter,
    Flag,
    GSet,
    LWWMap,
}

/// The class name of an `ORMap` value type.
pub open spec fn or_map_value_name(k: OrMapValueKind) -> Seq<char> {
    match k {
        OrMapValueKind::LwwRegister => "LwwRegister"@,
        OrMapValueKind::PNCounter => "PNCounter"@,
        OrMapValueKind::Flag => "Flag"@,
        OrMapValueKind::GSet => "GSet"@,
        OrMapValueKind::LWWMap => "LWWMap"@,
    }
}

/// The CRDT kind of an `ORMap` value type.
pub open spec fn or_map_value_crdt(k: OrMapValueKind) -> CrdtKind {
    match k {
        OrMapValueKind::LwwRegister => CrdtKind::LwwRegister,
        OrMapValueKind::PNCounter => CrdtKind::PNCounter,
        OrMapValueKind::Flag => CrdtKind::Flag,
        OrMapValueKind::GSet => CrdtKind::GSet,
        OrMapValueKind::LWWMap => CrdtKind::LWWMap,
    }
}

/// The refusal of a value of the wrong type.
pub open spec fn put_mismatch_message(k: OrMapValueKind) -> Seq<char> {
    "ORMap["@ + or_map_value_name(k) + "]: value must be a `"@ + or_map_value_name(k)
        + "` instance"@
}

/// The refusal of a merge across value types.
pub open spec fn merge_mismatch_message(a: OrMapValueKind, b: OrMapValueKind) -> Seq<char> {
    "ORMap merge requires matching value types: self="@ + or_map_value_name(a) + ", other="@
        + or_map_value_name(b)
}

impl OrMapValueKind {
    /// The class name of this value type.
    pub fn variant_name(&self) -> (s: &'static str)
        ensures
            s@ == or_map_value_name(*self),
    {
        match self {
            OrMapValueKind::LwwRegister => "LwwRegister",
            OrMapValueKind::PNCounter => "PNCounter",
            OrMapValueKind::Flag => "Flag",
            OrMapValueKind::GSet => "GSet",
            OrMapValueKind::LWWMap => "LWWMap",
        }
    }
}

/// Whether an `ORMap` fixed to `expected` accepts a value of kind
/// `given` (`None`: not a CRDT at all); refused with the message that
/// names the expected class.
pub fn check_or_map_put(expected: OrMapValueKind, given: Option<CrdtKind>) -> (r: Result<(), String>)
    ensures
        r is Ok <==> given == Some(or_map_value_crdt(expected)),
        r matches Err(m) ==> m@ == put_mismatch_message(expected),
{
    let want = match expected {
        OrMapValueKind::LwwRegister => CrdtKind::LwwRegister,
        OrMapValueKind::PNCounter => CrdtKind::PNCounter,
        OrMapValueKind::Flag => CrdtKind::Flag,
        OrMapValueKind::GSet => CrdtKind::GSet,
        OrMapValueKind::LWWMap => CrdtKind::LWWMap,
    };
    match given {
        Some(k) if k == want => Ok(()),
        _ => {
            let name = expected.variant_name();
            let mut m = String::from_str("ORMap[");
            m.append(name);
            m.append("]: value must be a `");
            m.append(name);
            m.append("` instance");
            Err(m)
        },
    }
}

/// Whether two `ORMap`s can merge: only when their value types match;
/// refused with the message that names both.
pub fn check_or_map_merge(a: OrMapValueKind, b: OrMapValueKind) -> (r: Result<(), String>)
    ensures
        r is Ok <==> a == b,
        r matches Err(m) ==> m@ == merge_mismatch_message(a, b),
{
    if a == b {
        Ok(())
    } else {
        let mut m = String::from_str("ORMap merge requires matching value types: self=");
        m.append(a.variant_name());
        m.append(", other=");
        m.append(b.variant_name());
        Err(m)
    }
}

/// The refusal of an `ORMap` that the replicator cannot store.
pub open spec fn replicator_or_map_message(k: OrMapValueKind) -> Seq<char> {
    "Replicator.update only supports ORMap[LwwRegister]; got ORMap["@ + or_map_value_name(k)
        + "]. Use of_lww_register() to construct a Replicator-compatible ORMap."@
}

/// Whether the replicator can store an `ORMap` of value type `k`: only
/// maps of `LwwRegister` values; refused with the message that names the
/// map's value type.
pub fn check_replicated_or_map(k: OrMapValueKind) -> (r: Result<(), String>)
    ensures
        r is Ok <==> k == OrMapValueKind::LwwRegister,
        r matches Err(m) ==> m@ == replicator_or_map_message(k),
{
    match k {
        OrMapValueKind::LwwRegister => Ok(()),
        _ => {
            let mut m = String::from_str("Replicator.update only supports ORMap[LwwRegister]; got ORMap[");
            m.append(k.variant_name());
            m.append("]. Use of_lww_register() to construct a Replicator-compatible ORMap.");
            Err(m)
        },
    }
}

} // verus!
