//! The local actors that remote messages can reach, by full path, and the
//! resolution of an inbound message's target path.

use vstd::prelude::*;
use crate::paths::{extract_user_name, user_name_of};
use crate::str_map::StrMap;
use crate::text::{ends_with, ends_with_spec};

verus! {

/// `path` names the user-level actor `name`: it ends with `/user/<name>`.
pub open spec fn names_user(path: Seq<char>, name: Seq<char>) -> bool {
    ends_with_spec(path, "/user/"@ + name)
}

/// Actor handles by full path.
pub struct PyActorRegistry<R> {
    by_path: StrMap<R>,
}

impl<R> PyActorRegistry<R> {
    /// The handle at each path.
    pub closed spec fn view(&self) -> Map<Seq<char>, R> {
        self.by_path@
    }

    pub closed spec fn wf(&self) -> bool {
        self.by_path.wf()
    }

    /// No actor.
    pub fn new() -> (r: Self)
        ensures
            r.wf(),
            r.view() == Map::<Seq<char>, R>::empty(),
    {
        PyActorRegistry { by_path: StrMap::new() }
    }

    /// Records the handle of the actor at `path`, replacing an earlier one.
    pub fn register(&mut self, path: &str, actor: R)
        requires
            old(self).wf(),
        ensures
            final(self).wf(),
            final(self).view() == old(self).view().insert(path@, actor),
    {
        self.by_path.insert(String::from_str(path), actor);
    }

    /// The handle at exactly `path`.
    pub fn lookup(&self, path: &str) -> (r: Option<&R>)
        requires
            self.wf(),
        ensures
            match r {
                Some(a) => self.view().contains_key(path@) && *a == self.view()[path@],
                None => !self.view().contains_key(path@),
            },
    {
        self.by_path.get(path)
    }

    /// A handle whose path ends with `/user/<name>`, whatever address it
    /// was recorded under; when several do, which one comes back is not
    /// fixed.
    pub fn lookup_by_user_name(&self, name: &str) -> (r: Option<&R>)
        requires
            self.wf(),
        ensures
            match r {
                Some(a) => exists|p: Seq<char>|
                    self.view().contains_key(p) && names_user(p, name@) && *a == self.view()[p],
                None => forall|p: Seq<char>| self.view().contains_key(p) ==> !names_user(p, name@),
            },
    {
        let mut suffix = String::from_str("/user/");
        suffix.append(name);
        let n = self.by_path.len();
        let mut i: usize = 0;
        while i < n
            invariant
                self.wf(),
                n == self.by_path.pairs().len(),
                i <= n,
                suffix@ == "/user/"@ + name@,
                forall|j: int| 0 <= j < i ==> !names_user(#[trigger] self.by_path.pairs()[j].0@, name@),
            decreases n - i,
        {
            if ends_with(self.by_path.key_at(i).as_str(), suffix.as_str()) {
                let a = self.by_path.value_at(i);
                proof {
                    crate::str_map::lemma_pairs_at(self.by_path.pairs(), i as int);
                    let p = self.by_path.pairs()[i as int].0@;
                    assert(self.view().contains_key(p) && names_user(p, name@) && *a == self.view()[p]);
                }
                return Some(a);
            }
            i = i + 1;
        }
        proof {
            assert forall|p: Seq<char>| self.view().contains_key(p) implies !names_user(p, name@) by {
                crate::str_map::lemma_pairs_key(self.by_path.pairs(), p);
            }
        }
        None
    }

    /// The local actor an inbound message for `target_path` goes to: the
    /// one at exactly that path, else, when the path names a user-level
    /// actor (the sender may have stamped another address on it), one
    /// recorded under that user name.
    pub fn resolve_target(&self, target_path: &str) -> (r: Option<&R>)
        requires
            self.wf(),
        ensures
            self.view().contains_key(target_path@) ==> r == Some(&self.view()[target_path@]),
            !self.view().contains_key(target_path@) && user_name_of(target_path@) is None ==> r is None,
            (user_name_of(target_path@) matches Some(name) ==> (!self.view().contains_key(
                target_path@,
            ) ==> match r {
                Some(a) => exists|p: Seq<char>|
                    self.view().contains_key(p) && names_user(p, name) && *a == self.view()[p],
                None => forall|p: Seq<char>| self.view().contains_key(p) ==> !names_user(p, name),
            })),
    {
        match self.lookup(target_path) {
            Some(a) => Some(a),
            None => match extract_user_name(target_path) {
                Some(name) => {
                    let r = self.lookup_by_user_name(name);
                    proof {
                        let nm = user_name_of(target_path@)->0;
                        assert(nm == name@);
                        assert(match r {
                            Some(a) => exists|p: Seq<char>|
                                self.view().contains_key(p) && names_user(p, nm) && *a == self.view()[p],
                            None => forall|p: Seq<char>| self.view().contains_key(p) ==> !names_user(p, nm),
                        });
                    }
                    r
                },
                None => None,
            },
        }
    }
}

} // verus!
