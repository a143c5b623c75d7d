//! A container of services keyed by name, for dependency injection from
//! Python.

use vstd::prelude::*;
use crate::sorted::{sorted_keys, strictly_sorted, views};
use crate::str_map::StrMap;

verus! {

/// Services by key; registering a key again replaces its service.
pub struct PyServiceContainer<V> {
    services: StrMap<V>,
}

impl<V> PyServiceContainer<V> {
    /// The service under each key.
    pub closed spec fn view(&self) -> Map<Seq<char>, V> {
        self.services@
    }

    pub closed spec fn wf(&self) -> bool {
        self.services.wf()
    }

    /// No service.
    pub fn new() -> (c: Self)
        ensures
            c.wf(),
            c.view() == Map::<Seq<char>, V>::empty(),
    {
        PyServiceContainer { services: StrMap::new() }
    }

    /// Registers `value` under `key`.
    pub fn register(&mut self, key: String, value: V)
        requires
            old(self).wf(),
        ensures
            final(self).wf(),
            final(self).view() == old(self).view().insert(key@, value),
    {
        self.services.insert(key, value);
    }

    /// The service under `key`, if any.
    pub fn resolve(&self, key: &str) -> (r: Option<&V>)
        requires
            self.wf(),
        ensures
            match r {
                Some(v) => self.view().contains_key(key@) && *v == self.view()[key@],
                None => !self.view().contains_key(key@),
            },
    {
        self.services.get(key)
    }

    /// Every key, in increasing order.
    pub fn keys(&self) -> (v: Vec<String>)
        requires
            self.wf(),
        ensures
            strictly_sorted(views(v@)),
            forall|x: Seq<char>| #[trigger] views(v@).contains(x) <==> self.view().contains_key(x),
    {
        sorted_keys(&self.services)
    }
}

} // verus!
