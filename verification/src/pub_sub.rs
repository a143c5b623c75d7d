//! The distributed publish-subscribe mediator's local tables: subscribers
//! by topic, and round-robin groups by topic and group name.

use vstd::prelude::*;
use crate::str_map::StrMap;
use crate::text::str_eq;

verus! {

/// A subscriber: its actor path and the handle that delivers to it.
pub struct Subscriber<S> {
    pub path: String,
    pub handle: S,
}

/// The subscribers of `subs` other than those at `path`, in order.
pub open spec fn without_path<S>(subs: Seq<Subscriber<S>>, path: Seq<char>) -> Seq<Subscriber<S>>
    decreases subs.len(),
{
    if subs.len() == 0 {
        subs
    } else if subs.last().path@ == path {
        without_path(subs.drop_last(), path)
    } else {
        without_path(subs.drop_last(), path).push(subs.last())
    }
}

/// How many of `outcomes` are `true`.
pub open spec fn count_true(outcomes: Seq<bool>) -> nat
    decreases outcomes.len(),
{
    if outcomes.len() == 0 {
        0
    } else {
        count_true(outcomes.drop_last()) + if outcomes.last() {
            1nat
        } else {
            0nat
        }
    }
}

/// One `(topic, group)` bucket.
pub struct GroupEntry<S> {
    topic: String,
    group: String,
    members: Vec<Subscriber<S>>,
    cursor: usize,
}

/// The bucket key of entry `e`.
spec fn group_key<S>(e: GroupEntry<S>) -> (Seq<char>, Seq<char>) {
    (e.topic@, e.group@)
}

spec fn groups_has<S>(s: Seq<GroupEntry<S>>, k: (Seq<char>, Seq<char>)) -> bool {
    exists|i: int| 0 <= i < s.len() && #[trigger] group_key(s[i]) == k
}

spec fn groups_index<S>(s: Seq<GroupEntry<S>>, k: (Seq<char>, Seq<char>)) -> int {
    choose|i: int| 0 <= i < s.len() && #[trigger] group_key(s[i]) == k
}

spec fn groups_distinct<S>(s: Seq<GroupEntry<S>>) -> bool {
    forall|i: int, j: int|
        0 <= i < s.len() && 0 <= j < s.len() && i != j ==> #[trigger] group_key(s[i])
            != #[trigger] group_key(s[j])
}

/// The members and round-robin cursor of every bucket.
spec fn groups_view<S>(s: Seq<GroupEntry<S>>) -> Map<
    (Seq<char>, Seq<char>),
    (Seq<Subscriber<S>>, usize),
> {
    Map::new(
        |k: (Seq<char>, Seq<char>)| groups_has(s, k),
        |k: (Seq<char>, Seq<char>)|
            (s[groups_index(s, k)].members@, s[groups_index(s, k)].cursor),
    )
}

proof fn lemma_groups_at<S>(s: Seq<GroupEntry<S>>, i: int)
    requires
        groups_distinct(s),
        0 <= i < s.len(),
    ensures
        groups_view(s).contains_key(group_key(s[i])),
        groups_view(s)[group_key(s[i])] == (s[i].members@, s[i].cursor),
        groups_index(s, group_key(s[i])) == i,
{
    assert(groups_has(s, group_key(s[i])));
    let j = groups_index(s, group_key(s[i]));
    assert(group_key(s[j]) == group_key(s[i]));
}

proof fn lemma_groups_len<S>(s: Seq<GroupEntry<S>>)
    requires
        groups_distinct(s),
    ensures
        groups_view(s).dom().finite(),
        groups_view(s).dom().len() == s.len(),
    decreases s.len(),
{
    if s.len() == 0 {
        assert(groups_view(s).dom() =~= Set::<(Seq<char>, Seq<char>)>::empty());
    } else {
        let t = s.drop_last();
        assert(groups_distinct(t)) by {
            assert forall|i: int, j: int|
                0 <= i < t.len() && 0 <= j < t.len() && i != j implies #[trigger] group_key(t[i])
                != #[trigger] group_key(t[j]) by {
                assert(t[i] == s[i]);
                assert(t[j] == s[j]);
            }
        }
        lemma_groups_len(t);
        let last = group_key(s.last());
        assert(groups_view(s).dom() =~= groups_view(t).dom().insert(last)) by {
            assert forall|k: (Seq<char>, Seq<char>)| groups_view(s).dom().contains(k) implies groups_view(
                t,
            ).dom().insert(last).contains(k) by {
                let i = groups_index(s, k);
                if i < t.len() {
                    assert(t[i] == s[i]);
                    assert(groups_has(t, k));
                }
            }
            assert forall|k: (Seq<char>, Seq<char>)| groups_view(t).dom().insert(last).contains(
                k,
            ) implies groups_view(s).dom().contains(k) by {
                if k == last {
                    assert(group_key(s[s.len() - 1]) == k);
                } else {
                    let i = groups_index(t, k);
                    assert(t[i] == s[i]);
                }
            }
        }
        assert(!groups_view(t).dom().contains(last)) by {
            if groups_view(t).dom().contains(last) {
                let i = groups_index(t, last);
                assert(t[i] == s[i]);
                assert(group_key(s[i]) == group_key(s[s.len() - 1]));
            }
        }
    }
}

/// The subscriber tables of one node.
pub struct DistributedPubSub<S> {
    topics: StrMap<Vec<Subscriber<S>>>,
    groups: Vec<GroupEntry<S>>,
}

impl<S> DistributedPubSub<S> {
    /// Subscribers by topic.
    pub closed spec fn topics_view(&self) -> Map<Seq<char>, Seq<Subscriber<S>>> {
        self.topics@.map_values(|v: Vec<Subscriber<S>>| v@)
    }

    /// Members and cursor by `(topic, group)`.
    pub closed spec fn groups_spec(&self) -> Map<(Seq<char>, Seq<char>), (Seq<Subscriber<S>>, usize)> {
        groups_view(self.groups@)
    }

    pub closed spec fn wf(&self) -> bool {
        self.topics.wf() && groups_distinct(self.groups@)
    }

    /// The subscribers of `topic` (none when unknown).
    pub open spec fn subscribers_of(&self, topic: Seq<char>) -> Seq<Subscriber<S>> {
        if self.topics_view().contains_key(topic) {
            self.topics_view()[topic]
        } else {
            Seq::empty()
        }
    }

    pub fn new() -> (p: Self)
        ensures
            p.wf(),
            p.topics_view() == Map::<Seq<char>, Seq<Subscriber<S>>>::empty(),
            p.groups_spec() == Map::<(Seq<char>, Seq<char>), (Seq<Subscriber<S>>, usize)>::empty(),
    {
        let p = DistributedPubSub { topics: StrMap::new(), groups: Vec::new() };
        assert(p.topics_view() =~= Map::<Seq<char>, Seq<Subscriber<S>>>::empty());
        assert(p.groups_spec() =~= Map::<(Seq<char>, Seq<char>), (Seq<Subscriber<S>>, usize)>::empty());
        p
    }

    /// Adds `sub` to the subscribers of `topic`.
    pub fn subscribe(&mut self, topic: String, sub: Subscriber<S>)
        requires
            old(self).wf(),
        ensures
            final(self).wf(),
            final(self).topics_view() == old(self).topics_view().insert(
                topic@,
                old(self).subscribers_of(topic@).push(sub),
            ),
            final(self).groups_spec() == old(self).groups_spec(),
    {
        let ghost t = topic@;
        let ghost before = self.topics_view();
        let mut v = match self.topics.remove(topic.as_str()) {
            Some(v) => v,
            None => Vec::new(),
        };
        v.push(sub);
        let ghost pushed = v@;
        self.topics.insert(topic, v);
        assert(self.topics_view() =~= before.insert(t, pushed));
    }

    /// Drops the subscribers of `topic` at `path`.
    pub fn unsubscribe(&mut self, topic: &str, path: &str)
        requires
            old(self).wf(),
        ensures
            final(self).wf(),
            final(self).topics_view() == (if old(self).topics_view().contains_key(topic@) {
                old(self).topics_view().insert(
                    topic@,
                    without_path(old(self).topics_view()[topic@], path@),
                )
            } else {
                old(self).topics_view()
            }),
            final(self).groups_spec() == old(self).groups_spec(),
    {
        let ghost before = self.topics_view();
        match self.topics.remove(topic) {
            Some(v) => {
                let kept = retain_other_paths(v, path);
                let ghost k = kept@;
                self.topics.insert(String::from_str(topic), kept);
                assert(self.topics_view() =~= before.insert(topic@, k));
            },
            None => {
                assert(self.topics_view() =~= before);
            },
        }
    }

    /// The subscribers of `topic`.
    pub fn publish(&self, topic: &str) -> (r: &[Subscriber<S>])
        requires
            self.wf(),
        ensures
            r@ == self.subscribers_of(topic@),
    {
        match self.topics.get(topic) {
            Some(v) => v.as_slice(),
            None => &[],
        }
    }

    /// Number of topics.
    pub fn topic_count(&self) -> (n: usize)
        requires
            self.wf(),
        ensures
            n == self.topics_view().dom().len(),
    {
        let n = self.topics.len();
        assert(self.topics_view().dom() =~= self.topics@.dom());
        n
    }

    /// Number of `(topic, group)` buckets.
    pub fn group_count(&self) -> (n: usize)
        requires
            self.wf(),
        ensures
            n == self.groups_spec().dom().len(),
    {
        proof {
            lemma_groups_len(self.groups@);
        }
        self.groups.len()
    }

    fn find_group(&self, topic: &str, group: &str) -> (r: Option<usize>)
        requires
            self.wf(),
        ensures
            match r {
                Some(i) => i < self.groups@.len() && group_key(self.groups@[i as int]) == (topic@, group@),
                None => !self.groups_spec().contains_key((topic@, group@)),
            },
    {
        let mut i: usize = 0;
        while i < self.groups.len()
            invariant
                i <= self.groups@.len(),
                forall|j: int| 0 <= j < i ==> #[trigger] group_key(self.groups@[j]) != (topic@, group@),
            decreases self.groups@.len() - i,
        {
            if str_eq(self.groups[i].topic.as_str(), topic) && str_eq(self.groups[i].group.as_str(), group) {
                return Some(i);
            }
            i = i + 1;
        }
        None
    }

    /// Adds `sub` to the `(topic, group)` bucket.
    pub fn subscribe_to_group(&mut self, topic: String, group: String, sub: Subscriber<S>)
        requires
            old(self).wf(),
        ensures
            final(self).wf(),
            final(self).topics_view() == old(self).topics_view(),
            final(self).groups_spec() == old(self).groups_spec().insert(
                (topic@, group@),
                if old(self).groups_spec().contains_key((topic@, group@)) {
                    (
                        old(self).groups_spec()[(topic@, group@)].0.push(sub),
                        old(self).groups_spec()[(topic@, group@)].1,
                    )
                } else {
                    (seq![sub], 0usize)
                },
            ),
    {
        let ghost key = (topic@, group@);
        let ghost s0 = self.groups@;
        match self.find_group(topic.as_str(), group.as_str()) {
            Some(i) => {
                proof {
                    lemma_groups_at(s0, i as int);
                }
                let mut e = self.groups.remove(i);
                e.members.push(sub);
                let ghost e2 = e;
                self.groups.insert(i, e);
                proof {
                    let s = self.groups@;
                    assert(s =~= s0.update(i as int, e2));
                    assert(groups_distinct(s)) by {
                        assert forall|a: int, b: int|
                            0 <= a < s.len() && 0 <= b < s.len() && a != b implies #[trigger] group_key(
                            s[a],
                        ) != #[trigger] group_key(s[b]) by {
                            assert(a != i ==> s[a] == s0[a]);
                            assert(b != i ==> s[b] == s0[b]);
                        }
                    }
                    assert(groups_view(s) =~= groups_view(s0).insert(key, (e2.members@, e2.cursor))) by {
                        assert forall|k: (Seq<char>, Seq<char>)| #[trigger] groups_view(s).contains_key(k)
                            <==> groups_view(s0).insert(key, (e2.members@, e2.cursor)).contains_key(k) by {
                            if groups_view(s0).contains_key(k) {
                                let j = groups_index(s0, k);
                                if j != i {
                                    assert(s[j] == s0[j]);
                                }
                            }
                            if groups_view(s).contains_key(k) {
                                let j = groups_index(s, k);
                                if j != i {
                                    assert(s[j] == s0[j]);
                                }
                            }
                            if k == key {
                                assert(group_key(s[i as int]) == key);
                            }
                        }
                        assert forall|k: (Seq<char>, Seq<char>)| #[trigger] groups_view(s).contains_key(k)
                            implies groups_view(s)[k] == groups_view(s0).insert(
                            key,
                            (e2.members@, e2.cursor),
                        )[k] by {
                            let j = groups_index(s, k);
                            lemma_groups_at(s, j);
                            if j != i {
                                assert(s[j] == s0[j]);
                                lemma_groups_at(s0, j);
                            }
                        }
                    }
                }
            },
            None => {
                let mut members: Vec<Subscriber<S>> = Vec::new();
                members.push(sub);
                let e = GroupEntry { topic, group, members, cursor: 0 };
                let ghost e2 = e;
                self.groups.push(e);
                proof {
                    let s = self.groups@;
                    assert(e2.members@ =~= seq![sub]);
                    assert(groups_distinct(s)) by {
                        assert forall|a: int, b: int|
                            0 <= a < s.len() && 0 <= b < s.len() && a != b implies #[trigger] group_key(
                            s[a],
                        ) != #[trigger] group_key(s[b]) by {
                            if a < s0.len() && b < s0.len() {
                                assert(s[a] == s0[a] && s[b] == s0[b]);
                            } else if a < s0.len() {
                                assert(s[a] == s0[a]);
                                assert(groups_has(s0, group_key(s[a])));
                            } else {
                                assert(s[b] == s0[b]);
                                assert(groups_has(s0, group_key(s[b])));
                            }
                        }
                    }
                    assert(groups_view(s) =~= groups_view(s0).insert(key, (seq![sub], 0usize))) by {
                        assert forall|k: (Seq<char>, Seq<char>)| #[trigger] groups_view(s).contains_key(k)
                            <==> groups_view(s0).insert(key, (seq![sub], 0usize)).contains_key(k) by {
                            if groups_view(s0).contains_key(k) {
                                let j = groups_index(s0, k);
                                assert(s[j] == s0[j]);
                            }
                            if groups_view(s).contains_key(k) && k != key {
                                let j = groups_index(s, k);
                                if j < s0.len() {
                                    assert(s[j] == s0[j]);
                                }
                            }
                            if k == key {
                                assert(group_key(s[s0.len() as int]) == key);
                            }
                        }
                        assert forall|k: (Seq<char>, Seq<char>)| #[trigger] groups_view(s).contains_key(k)
                            implies groups_view(s)[k] == groups_view(s0).insert(key, (seq![sub], 0usize))[k] by {
                            let j = groups_index(s, k);
                            lemma_groups_at(s, j);
                            if j < s0.len() {
                                assert(s[j] == s0[j]);
                                lemma_groups_at(s0, j);
                            }
                        }
                    }
                }
            },
        }
    }

    /// The members of the `(topic, group)` bucket (none when unknown).
    pub fn group_members(&self, topic: &str, group: &str) -> (r: &[Subscriber<S>])
        requires
            self.wf(),
        ensures
            self.groups_spec().contains_key((topic@, group@)) ==> r@ == self.groups_spec()[(topic@, group@)].0,
            !self.groups_spec().contains_key((topic@, group@)) ==> r@.len() == 0,
    {
        match self.find_group(topic, group) {
            Some(i) => {
                proof {
                    lemma_groups_at(self.groups@, i as int);
                }
                self.groups[i].members.as_slice()
            },
            None => &[],
        }
    }

    /// Picks the next member of the `(topic, group)` bucket, round-robin:
    /// its position among the members, or `None` when the bucket is unknown
    /// or empty.
    pub fn next_group_member(&mut self, topic: &str, group: &str) -> (r: Option<usize>)
        requires
            old(self).wf(),
        ensures
            final(self).wf(),
            final(self).topics_view() == old(self).topics_view(),
            match r {
                Some(i) => {
                    let (members, cursor) = old(self).groups_spec()[(topic@, group@)];
                    &&& old(self).groups_spec().contains_key((topic@, group@))
                    &&& members.len() > 0
                    &&& i as int == (cursor as int) % (members.len() as int)
                    &&& final(self).groups_spec() == old(self).groups_spec().insert(
                        (topic@, group@),
                        (members, cursor.wrapping_add(1)),
                    )
                },
                None => {
                    &&& (!old(self).groups_spec().contains_key((topic@, group@)) || old(
                        self,
                    ).groups_spec()[(topic@, group@)].0.len() == 0)
                    &&& final(self).groups_spec() == old(self).groups_spec()
                },
            },
    {
        let ghost key = (topic@, group@);
        let ghost s0 = self.groups@;
        match self.find_group(topic, group) {
            Some(i) => {
                proof {
                    lemma_groups_at(s0, i as int);
                }
                let n = self.groups[i].members.len();
                if n == 0 {
                    return None;
                }
                let mut e = self.groups.remove(i);
                let idx = e.cursor % n;
                e.cursor = e.cursor.wrapping_add(1);
                let ghost e2 = e;
                self.groups.insert(i, e);
                proof {
                    let s = self.groups@;
                    assert(s =~= s0.update(i as int, e2));
                    assert(groups_distinct(s)) by {
                        assert forall|a: int, b: int|
                            0 <= a < s.len() && 0 <= b < s.len() && a != b implies #[trigger] group_key(
                            s[a],
                        ) != #[trigger] group_key(s[b]) by {
                            assert(a != i ==> s[a] == s0[a]);
                            assert(b != i ==> s[b] == s0[b]);
                        }
                    }
                    assert(groups_view(s) =~= groups_view(s0).insert(key, (e2.members@, e2.cursor))) by {
                        assert forall|k: (Seq<char>, Seq<char>)| #[trigger] groups_view(s).contains_key(k)
                            <==> groups_view(s0).insert(key, (e2.members@, e2.cursor)).contains_key(k) by {
                            if groups_view(s0).contains_key(k) {
                                let j = groups_index(s0, k);
                                if j != i {
                                    assert(s[j] == s0[j]);
                                }
                            }
                            if groups_view(s).contains_key(k) {
                                let j = groups_index(s, k);
                                if j != i {
                                    assert(s[j] == s0[j]);
                                }
                            }
                            if k == key {
                                assert(group_key(s[i as int]) == key);
                            }
                        }
                        assert forall|k: (Seq<char>, Seq<char>)| #[trigger] groups_view(s).contains_key(k)
                            implies groups_view(s)[k] == groups_view(s0).insert(
                            key,
                            (e2.members@, e2.cursor),
                        )[k] by {
                            let j = groups_index(s, k);
                            lemma_groups_at(s, j);
                            if j != i {
                                assert(s[j] == s0[j]);
                                lemma_groups_at(s0, j);
                            }
                        }
                    }
                }
                Some(idx)
            },
            None => None,
        }
    }
    /// Hands a message to every subscriber of `topic` through `deliver`,
    /// in subscription order, and counts the deliveries that succeeded.
    pub fn publish_msg<F: Fn(&S) -> bool>(&self, topic: &str, deliver: &F) -> (r: usize)
        requires
            self.wf(),
            forall|h: &S| deliver.requires((h,)),
        ensures
            exists|outcomes: Seq<bool>|
                {
                    &&& outcomes.len() == self.subscribers_of(topic@).len()
                    &&& forall|i: int|
                        0 <= i < outcomes.len() ==> deliver.ensures(
                            (&self.subscribers_of(topic@)[i].handle,),
                            #[trigger] outcomes[i],
                        )
                    &&& r == count_true(outcomes)
                },
    {
        let subs = self.publish(topic);
        let mut delivered: usize = 0;
        let ghost mut outcomes: Seq<bool> = Seq::empty();
        let mut i: usize = 0;
        while i < subs.len()
            invariant
                subs@ == self.subscribers_of(topic@),
                forall|h: &S| deliver.requires((h,)),
                i <= subs@.len(),
                outcomes.len() == i,
                forall|j: int|
                    0 <= j < i ==> deliver.ensures((&subs@[j].handle,), #[trigger] outcomes[j]),
                delivered == count_true(outcomes),
                delivered <= i,
            decreases subs@.len() - i,
        {
            let ok = deliver(&subs[i].handle);
            proof {
                assert(outcomes.push(ok).drop_last() =~= outcomes);
                outcomes = outcomes.push(ok);
            }
            if ok {
                delivered = delivered + 1;
            }
            i = i + 1;
        }
        delivered
    }

    /// Hands a message to the next member of the `(topic, group)` bucket,
    /// round-robin, through `deliver`: `false` when the bucket is unknown or
    /// empty, else what `deliver` answered.
    pub fn send_to_group<F: Fn(&S) -> bool>(&mut self, topic: &str, group: &str, deliver: &F) -> (r: bool)
        requires
            old(self).wf(),
            forall|h: &S| deliver.requires((h,)),
        ensures
            final(self).wf(),
            final(self).topics_view() == old(self).topics_view(),
            ({
                let key = (topic@, group@);
                if old(self).groups_spec().contains_key(key) && old(self).groups_spec()[key].0.len() > 0 {
                    let (members, cursor) = old(self).groups_spec()[key];
                    &&& final(self).groups_spec() == old(self).groups_spec().insert(
                        key,
                        (members, cursor.wrapping_add(1)),
                    )
                    &&& deliver.ensures(
                        (&members[(cursor as int) % (members.len() as int)].handle,),
                        r,
                    )
                } else {
                    &&& !r
                    &&& final(self).groups_spec() == old(self).groups_spec()
                }
            }),
    {
        match self.next_group_member(topic, group) {
            Some(i) => {
                let members = self.group_members(topic, group);
                deliver(&members[i].handle)
            },
            None => false,
        }
    }

}

/// The subscribers of `v` not at `path`, in order.
fn retain_other_paths<S>(v: Vec<Subscriber<S>>, path: &str) -> (r: Vec<Subscriber<S>>)
    ensures
        r@ == without_path(v@, path@),
{
    let ghost orig = v@;
    let mut rest = v;
    let mut out: Vec<Subscriber<S>> = Vec::new();
    let ghost mut k: int = 0;
    assert(orig.take(0) =~= Seq::<Subscriber<S>>::empty());
    assert(orig.skip(0) =~= orig);
    while rest.len() > 0
        invariant
            0 <= k <= orig.len(),
            rest@ == orig.skip(k),
            out@ == without_path(orig.take(k), path@),
        decreases rest@.len(),
    {
        let s = rest.remove(0);
        proof {
            assert(s == orig[k]);
            assert(orig.take(k + 1).drop_last() =~= orig.take(k));
            assert(orig.take(k + 1).last() == orig[k]);
            assert(rest@ =~= orig.skip(k + 1));
        }
        if !str_eq(s.path.as_str(), path) {
            out.push(s);
        }
        proof {
            k = k + 1;
        }
    }
    assert(orig.take(k) =~= orig);
    out
}

/// Unsubscribing `path` keeps exactly the subscribers whose path is not
/// equal to `path`, in their order: `without_path` is the filter that drops
/// the subscribers at exactly that path and no others.
pub proof fn lemma_without_path_keeps_other_paths<S>(subs: Seq<Subscriber<S>>, path: Seq<char>)
    ensures
        without_path(subs, path) == subs.filter(|x: Subscriber<S>| x.path@ != path),
        forall|i: int|
            0 <= i < without_path(subs, path).len() ==> (#[trigger] without_path(subs, path)[i]).path@
                != path,
        forall|i: int|
            0 <= i < subs.len() && (#[trigger] subs[i]).path@ != path ==> without_path(subs, path).contains(
                subs[i],
            ),
    decreases subs.len(),
{
    reveal(Seq::filter);
    let pred = |x: Subscriber<S>| x.path@ != path;
    if subs.len() > 0 {
        lemma_without_path_keeps_other_paths(subs.drop_last(), path);
    }
    broadcast use vstd::seq_lib::group_filter_ensures;
    assert forall|i: int| 0 <= i < subs.len() && (#[trigger] subs[i]).path@ != path implies subs.filter(
        pred,
    ).contains(subs[i]) by {
        assert(pred(subs[i]));
    }
    assert forall|i: int| 0 <= i < subs.filter(pred).len() implies (#[trigger] subs.filter(pred)[i]).path@
        != path by {
        assert(pred(subs.filter(pred)[i]));
    }
}

} // verus!
