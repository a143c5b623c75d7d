//! Reachability: which observers think which subjects are reachable. A node
//! is unreachable as soon as any observer reports it so, and terminated as
//! soon as any observer reports it terminated.
//!
//! Nodes are named by the textual form of their address.

use vstd::prelude::*;
use crate::str_map::{StrMap, lemma_pairs_at, lemma_pairs_key};

verus! {

#[derive(Debug, Clone, Copy, PartialEq, Eq, Structural)]
pub enum ReachabilityStatus {
    Reachable,
    Unreachable,
    Terminated,
}

/// Some observer reports `subject` with status `st`.
pub open spec fn reported(
    records: Map<(Seq<char>, Seq<char>), ReachabilityStatus>,
    subject: Seq<char>,
    st: ReachabilityStatus,
) -> bool {
    exists|o: Seq<char>| #[trigger] records.contains_key((o, subject)) && records[(o, subject)] == st
}

/// The combined status of `subject`: terminated if any observer says so,
/// otherwise unreachable if any observer says so, otherwise reachable.
pub open spec fn status_of(
    records: Map<(Seq<char>, Seq<char>), ReachabilityStatus>,
    subject: Seq<char>,
) -> ReachabilityStatus {
    if reported(records, subject, ReachabilityStatus::Terminated) {
        ReachabilityStatus::Terminated
    } else if reported(records, subject, ReachabilityStatus::Unreachable) {
        ReachabilityStatus::Unreachable
    } else {
        ReachabilityStatus::Reachable
    }
}

/// The reports of all observers, per observer and subject.
pub struct Reachability {
    records: StrMap<StrMap<ReachabilityStatus>>,
}

impl View for Reachability {
    type V = Map<(Seq<char>, Seq<char>), ReachabilityStatus>;

    closed spec fn view(&self) -> Map<(Seq<char>, Seq<char>), ReachabilityStatus> {
        Map::new(
            |k: (Seq<char>, Seq<char>)|
                self.records@.contains_key(k.0) && self.records@[k.0]@.contains_key(k.1),
            |k: (Seq<char>, Seq<char>)| self.records@[k.0]@[k.1],
        )
    }
}

impl Reachability {
    /// The representation invariant.
    pub closed spec fn wf(&self) -> bool {
        &&& self.records.wf()
        &&& forall|o: Seq<char>| #[trigger] self.records@.contains_key(o) ==> self.records@[o].wf()
    }

    /// No reports.
    pub fn new() -> (r: Self)
        ensures
            r.wf(),
            r@ == Map::<(Seq<char>, Seq<char>), ReachabilityStatus>::empty(),
    {
        let r = Reachability { records: StrMap::new() };
        assert(r@ =~= Map::<(Seq<char>, Seq<char>), ReachabilityStatus>::empty());
        r
    }

    /// Records what `observer` reports of `subject`, replacing its earlier
    /// report.
    pub fn record(&mut self, observer: String, subject: String, st: ReachabilityStatus)
        requires
            old(self).wf(),
        ensures
            final(self).wf(),
            final(self)@ == old(self)@.insert((observer@, subject@), st),
    {
        let ghost old_view = self@;
        let ghost old_records = self.records@;
        let ghost o = observer@;
        let ghost s = subject@;
        let mut inner = match self.records.remove(observer.as_str()) {
            Some(m) => m,
            None => StrMap::new(),
        };
        let ghost inner_old = inner@;
        inner.insert(subject, st);
        self.records.insert(observer, inner);
        proof {
            assert forall|x: Seq<char>| #[trigger] self.records@.contains_key(x) implies self.records@[x].wf() by {
                if x != o {
                    assert(old_records.contains_key(x));
                }
            }
            assert(self@ =~= old_view.insert((o, s), st)) by {
                assert forall|k: (Seq<char>, Seq<char>)| #[trigger] self@.contains_key(k)
                    <==> old_view.insert((o, s), st).contains_key(k) by {
                    if k.0 == o {
                        if old_records.contains_key(o) {
                            assert(inner_old == old_records[o]@);
                        } else {
                            assert(inner_old == Map::<Seq<char>, ReachabilityStatus>::empty());
                        }
                    }
                }
                assert forall|k: (Seq<char>, Seq<char>)| #[trigger] self@.contains_key(k)
                    implies self@[k] == old_view.insert((o, s), st)[k] by {
                    if k.0 == o {
                        if old_records.contains_key(o) {
                            assert(inner_old == old_records[o]@);
                        }
                    }
                }
            }
        }
    }

    /// `observer` reports `subject` unreachable.
    pub fn unreachable(&mut self, observer: String, subject: String)
        requires
            old(self).wf(),
        ensures
            final(self).wf(),
            final(self)@ == old(self)@.insert(
                (observer@, subject@),
                ReachabilityStatus::Unreachable,
            ),
    {
        self.record(observer, subject, ReachabilityStatus::Unreachable)
    }

    /// `observer` reports `subject` reachable.
    pub fn reachable(&mut self, observer: String, subject: String)
        requires
            old(self).wf(),
        ensures
            final(self).wf(),
            final(self)@ == old(self)@.insert((observer@, subject@), ReachabilityStatus::Reachable),
    {
        self.record(observer, subject, ReachabilityStatus::Reachable)
    }

    /// `observer` reports `subject` terminated.
    pub fn terminated(&mut self, observer: String, subject: String)
        requires
            old(self).wf(),
        ensures
            final(self).wf(),
            final(self)@ == old(self)@.insert((observer@, subject@), ReachabilityStatus::Terminated),
    {
        self.record(observer, subject, ReachabilityStatus::Terminated)
    }

    /// The combined status of `subject`.
    pub fn status(&self, subject: &str) -> (r: ReachabilityStatus)
        requires
            self.wf(),
        ensures
            r == status_of(self@, subject@),
    {
        let n = self.records.len();
        let mut any_unreachable = false;
        let mut i: usize = 0;
        while i < n
            invariant
                self.wf(),
                n == self.records.pairs().len(),
                i <= n,
                forall|j: int|
                    0 <= j < i ==> !(#[trigger] self.records.pairs()[j].1@.contains_key(subject@)
                        && self.records.pairs()[j].1@[subject@] == ReachabilityStatus::Terminated),
                any_unreachable == exists|j: int|
                    0 <= j < i && #[trigger] self.records.pairs()[j].1@.contains_key(subject@)
                        && self.records.pairs()[j].1@[subject@] == ReachabilityStatus::Unreachable,
            decreases n - i,
        {
            proof {
                lemma_pairs_at(self.records.pairs(), i as int);
            }
            let inner = self.records.value_at(i);
            match inner.get(subject) {
                Some(st) => {
                    match *st {
                        ReachabilityStatus::Terminated => {
                            proof {
                                let o = self.records.pairs()[i as int].0@;
                                assert(self@.contains_key((o, subject@)));
                            }
                            return ReachabilityStatus::Terminated;
                        },
                        ReachabilityStatus::Unreachable => {
                            any_unreachable = true;
                        },
                        ReachabilityStatus::Reachable => {},
                    }
                },
                None => {},
            }
            i = i + 1;
        }
        proof {
            let p = self.records.pairs();
            assert(!reported(self@, subject@, ReachabilityStatus::Terminated)) by {
                if reported(self@, subject@, ReachabilityStatus::Terminated) {
                    let o = choose|o: Seq<char>| #[trigger] self@.contains_key((o, subject@))
                        && self@[(o, subject@)] == ReachabilityStatus::Terminated;
                    lemma_pairs_key(p, o);
                    let j = crate::str_map::pairs_index(p, o);
                    assert(p[j].1@.contains_key(subject@));
                }
            }
            if any_unreachable {
                let j = choose|j: int|
                    0 <= j < n && #[trigger] p[j].1@.contains_key(subject@) && p[j].1@[subject@]
                        == ReachabilityStatus::Unreachable;
                lemma_pairs_at(p, j);
                assert(self@.contains_key((p[j].0@, subject@)));
            } else {
                if reported(self@, subject@, ReachabilityStatus::Unreachable) {
                    let o = choose|o: Seq<char>| #[trigger] self@.contains_key((o, subject@))
                        && self@[(o, subject@)] == ReachabilityStatus::Unreachable;
                    lemma_pairs_key(p, o);
                    let j = crate::str_map::pairs_index(p, o);
                    assert(p[j].1@.contains_key(subject@));
                }
            }
        }
        if any_unreachable {
            ReachabilityStatus::Unreachable
        } else {
            ReachabilityStatus::Reachable
        }
    }

    /// Whether `subject` is reachable.
    pub fn is_reachable(&self, subject: &str) -> (r: bool)
        requires
            self.wf(),
        ensures
            r == (status_of(self@, subject@) == ReachabilityStatus::Reachable),
    {
        match self.status(subject) {
            ReachabilityStatus::Reachable => true,
            _ => false,
        }
    }
}

/// One observer's unreachable report is enough to make a node unreachable
/// (or terminated, if some observer reports that).
pub proof fn lemma_unreachable_report_wins(
    records: Map<(Seq<char>, Seq<char>), ReachabilityStatus>,
    observer: Seq<char>,
    subject: Seq<char>,
)
    ensures
        status_of(records.insert((observer, subject), ReachabilityStatus::Unreachable), subject)
            != ReachabilityStatus::Reachable,
{
    let r = records.insert((observer, subject), ReachabilityStatus::Unreachable);
    assert(r.contains_key((observer, subject)));
}

/// One observer's terminated report makes the node terminated.
pub proof fn lemma_terminated_report_wins(
    records: Map<(Seq<char>, Seq<char>), ReachabilityStatus>,
    observer: Seq<char>,
    subject: Seq<char>,
)
    ensures
        status_of(records.insert((observer, subject), ReachabilityStatus::Terminated), subject)
            == ReachabilityStatus::Terminated,
{
    let r = records.insert((observer, subject), ReachabilityStatus::Terminated);
    assert(r.contains_key((observer, subject)));
}

/// When every report about a node says reachable, it is reachable; so an
/// observer that takes back its only bad report makes the node reachable
/// again.
pub proof fn lemma_all_reachable_reports(
    records: Map<(Seq<char>, Seq<char>), ReachabilityStatus>,
    subject: Seq<char>,
)
    requires
        forall|o: Seq<char>| #[trigger]
            records.contains_key((o, subject)) ==> records[(o, subject)]
                == ReachabilityStatus::Reachable,
    ensures
        status_of(records, subject) == ReachabilityStatus::Reachable,
{
}

} // verus!
