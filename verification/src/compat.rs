//! Registry of which Python C extensions are known to be safe under
//! subinterpreters or without the GIL.

use vstd::prelude::*;
use crate::str_map::StrMap;
use crate::sorted::{sorted_keys, strictly_sorted, views};

verus! {

/// What is known of one extension module.
pub struct CompatFlags {
    pub subinterpreter_safe: bool,
    pub nogil_safe: bool,
    pub notes: String,
}

impl Clone for CompatFlags {
    fn clone(&self) -> (c: Self)
        ensures
            c == *self,
    {
        CompatFlags {
            subinterpreter_safe: self.subinterpreter_safe,
            nogil_safe: self.nogil_safe,
            notes: self.notes.clone(),
        }
    }
}

fn flags(subinterpreter_safe: bool, nogil_safe: bool, notes: &str) -> (f: CompatFlags)
    ensures
        f.subinterpreter_safe == subinterpreter_safe,
        f.nogil_safe == nogil_safe,
        f.notes@ == notes@,
{
    CompatFlags { subinterpreter_safe, nogil_safe, notes: String::from_str(notes) }
}

/// The flags, by their observable parts.
pub open spec fn flags_view(f: CompatFlags) -> (bool, bool, Seq<char>) {
    (f.subinterpreter_safe, f.nogil_safe, f.notes@)
}

/// The conservative baseline, before operators declare anything.
pub open spec fn baseline_table() -> Map<Seq<char>, (bool, bool, Seq<char>)> {
    Map::empty()
        .insert("json"@, (true, true, "stdlib"@))
        .insert("dataclasses"@, (true, true, "stdlib"@))
        .insert("typing"@, (true, true, "stdlib"@))
        .insert("asyncio"@, (true, true, "stdlib"@))
        .insert("collections"@, (true, true, "stdlib"@))
        .insert("pickle"@, (true, true, "stdlib"@))
        .insert("msgpack"@, (true, false, "C ext, needs per-release audit"@))
        .insert("orjson"@, (true, false, "C ext, needs per-release audit"@))
        .insert("numpy"@, (true, false, "core OK; some module-level state"@))
        .insert("pydantic"@, (true, false, "compiled backend varies"@))
        .insert("pandas"@, (false, false, "heavy module-level state"@))
        .insert("torch"@, (false, false, "CUDA ctx tied to process/thread"@))
}

/// Compatibility flags by module name.
pub struct CompatRegistry {
    entries: StrMap<CompatFlags>,
}

impl View for CompatRegistry {
    type V = Map<Seq<char>, (bool, bool, Seq<char>)>;

    closed spec fn view(&self) -> Map<Seq<char>, (bool, bool, Seq<char>)> {
        self.entries@.map_values(|f: CompatFlags| flags_view(f))
    }
}

impl CompatRegistry {
    pub closed spec fn wf(&self) -> bool {
        self.entries.wf()
    }

    /// The baseline registry.
    pub fn baseline() -> (r: Self)
        ensures
            r.wf(),
            r@ == baseline_table(),
    {
        let mut m: StrMap<CompatFlags> = StrMap::new();
        m.insert(String::from_str("json"), flags(true, true, "stdlib"));
        m.insert(String::from_str("dataclasses"), flags(true, true, "stdlib"));
        m.insert(String::from_str("typing"), flags(true, true, "stdlib"));
        m.insert(String::from_str("asyncio"), flags(true, true, "stdlib"));
        m.insert(String::from_str("collections"), flags(true, true, "stdlib"));
        m.insert(String::from_str("pickle"), flags(true, true, "stdlib"));
        m.insert(String::from_str("msgpack"), flags(true, false, "C ext, needs per-release audit"));
        m.insert(String::from_str("orjson"), flags(true, false, "C ext, needs per-release audit"));
        m.insert(String::from_str("numpy"), flags(true, false, "core OK; some module-level state"));
        m.insert(String::from_str("pydantic"), flags(true, false, "compiled backend varies"));
        m.insert(String::from_str("pandas"), flags(false, false, "heavy module-level state"));
        m.insert(String::from_str("torch"), flags(false, false, "CUDA ctx tied to process/thread"));
        let r = CompatRegistry { entries: m };
        assert(r@ =~= baseline_table());
        r
    }

    /// Declares (or re-declares) the flags of module `name`.
    pub fn declare(&mut self, name: String, f: CompatFlags)
        requires
            old(self).wf(),
        ensures
            final(self).wf(),
            final(self)@ == old(self)@.insert(name@, flags_view(f)),
    {
        let ghost n = name@;
        let ghost fv = flags_view(f);
        self.entries.insert(name, f);
        assert(self@ =~= old(self)@.insert(n, fv));
    }

    /// The flags of module `name`.
    pub fn get(&self, name: &str) -> (r: Option<CompatFlags>)
        requires
            self.wf(),
        ensures
            match r {
                Some(f) => self@.contains_key(name@) && self@[name@] == flags_view(f),
                None => !self@.contains_key(name@),
            },
    {
        match self.entries.get(name) {
            Some(f) => Some(f.clone()),
            None => None,
        }
    }

    /// The registered module names, in increasing order.
    pub fn names(&self) -> (v: Vec<String>)
        requires
            self.wf(),
        ensures
            strictly_sorted(views(v@)),
            forall|m: Seq<char>| #[trigger] views(v@).contains(m) <==> self@.contains_key(m),
    {
        sorted_keys(&self.entries)
    }
}

} // verus!
