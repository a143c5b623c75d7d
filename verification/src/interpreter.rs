//! Interpreter pools: the unit of Python GIL isolation. A pool has a
//! dispatcher kind, a quota, a fixed set of workers and running counters;
//! a registry keeps one pool per label.

use vstd::prelude::*;
use crate::sorted::{sorted_keys, strictly_sorted, views};
use crate::str_map::StrMap;
use crate::text::{decimal, push_decimal, str_eq};

verus! {

/// The execution model of a pool.
#[derive(Debug, Clone, Copy, PartialEq, Eq, Structural)]
pub enum InterpreterKind {
    /// One interpreter on one OS thread.
    Pinned,
    /// `count` independent sub-interpreters, each on its own thread.
    SubinterpreterPool { count: usize },
    /// A free-threaded interpreter on `threads` threads.
    NoGil { threads: usize },
    /// `count` separate processes.
    Subprocess { count: usize },
}

/// The dispatcher name of a kind.
pub open spec fn kind_name(k: InterpreterKind) -> Seq<char> {
    match k {
        InterpreterKind::Pinned => "python-pinned"@,
        InterpreterKind::SubinterpreterPool { .. } => "python-subinterpreter-pool"@,
        InterpreterKind::NoGil { .. } => "python-nogil"@,
        InterpreterKind::Subprocess { .. } => "python-subprocess"@,
    }
}

/// The number of workers a kind runs.
pub open spec fn kind_workers(k: InterpreterKind) -> usize {
    match k {
        InterpreterKind::Pinned => 1,
        InterpreterKind::SubinterpreterPool { count } => count,
        InterpreterKind::NoGil { threads } => threads,
        InterpreterKind::Subprocess { count } => count,
    }
}

impl Default for InterpreterKind {
    fn default() -> (k: Self)
        ensures
            k == InterpreterKind::Pinned,
    {
        InterpreterKind::Pinned
    }
}

impl InterpreterKind {
    /// The dispatcher name of this kind.
    pub fn as_str(&self) -> (s: &'static str)
        ensures
            s@ == kind_name(*self),
    {
        match self {
            InterpreterKind::Pinned => "python-pinned",
            InterpreterKind::SubinterpreterPool { .. } => "python-subinterpreter-pool",
            InterpreterKind::NoGil { .. } => "python-nogil",
            InterpreterKind::Subprocess { .. } => "python-subprocess",
        }
    }

    /// The number of workers this kind runs.
    pub fn worker_count(&self) -> (n: usize)
        ensures
            n == kind_workers(*self),
    {
        match self {
            InterpreterKind::Pinned => 1,
            InterpreterKind::SubinterpreterPool { count } => *count,
            InterpreterKind::NoGil { threads } => *threads,
            InterpreterKind::Subprocess { count } => *count,
        }
    }
}

/// At least one.
pub open spec fn at_least_one(n: usize) -> usize {
    if n == 0 {
        1
    } else {
        n
    }
}

/// The kind a dispatcher name stands for, with `count` workers (at least
/// one); an unknown name means pinned.
pub open spec fn dispatcher_kind(name: Seq<char>, count: usize) -> InterpreterKind {
    if name == "python-pinned"@ {
        InterpreterKind::Pinned
    } else if name == "python-subinterpreter-pool"@ {
        InterpreterKind::SubinterpreterPool { count: at_least_one(count) }
    } else if name == "python-nogil"@ {
        InterpreterKind::NoGil { threads: at_least_one(count) }
    } else if name == "python-subprocess"@ {
        InterpreterKind::Subprocess { count: at_least_one(count) }
    } else {
        InterpreterKind::Pinned
    }
}

/// Decodes a dispatcher name, as props and configuration give it.
pub fn parse(name: &str, count: usize) -> (k: InterpreterKind)
    ensures
        k == dispatcher_kind(name@, count),
{
    let n: usize = if count == 0 {
        1
    } else {
        count
    };
    if str_eq(name, "python-pinned") {
        InterpreterKind::Pinned
    } else if str_eq(name, "python-subinterpreter-pool") {
        InterpreterKind::SubinterpreterPool { count: n }
    } else if str_eq(name, "python-nogil") {
        InterpreterKind::NoGil { threads: n }
    } else if str_eq(name, "python-subprocess") {
        InterpreterKind::Subprocess { count: n }
    } else {
        InterpreterKind::Pinned
    }
}

/// Decoding a kind's own name with its own worker count gives the kind
/// back, for every kind that runs at least one worker.
pub proof fn lemma_parse_round_trip(k: InterpreterKind)
    requires
        kind_workers(k) >= 1,
    ensures
        dispatcher_kind(kind_name(k), kind_workers(k)) == k,
{
    reveal_strlit("python-pinned");
    reveal_strlit("python-subinterpreter-pool");
    reveal_strlit("python-nogil");
    reveal_strlit("python-subprocess");
    assert("python-pinned"@.len() == 13);
    assert("python-subinterpreter-pool"@.len() == 26);
    assert("python-nogil"@.len() == 12);
    assert("python-subprocess"@.len() == 17);
    assert("python-nogil"@[8] != "python-subprocess"@[8]);
}

/// Whether sub-interpreters can be used, from the running Python's
/// version: from 3.12 on.
pub fn subinterpreters_supported(major: u32, minor: u32) -> (r: bool)
    ensures
        r == (major > 3 || (major == 3 && minor >= 12)),
{
    major > 3 || (major == 3 && minor >= 12)
}

/// Whether the interpreter runs without a GIL, from the probe of
/// `sys._is_gil_enabled()`: `None` when the probe failed.
pub fn nogil_supported(gil_enabled: Option<bool>) -> (r: bool)
    ensures
        r == (gil_enabled == Some(false)),
{
    match gil_enabled {
        Some(on) => !on,
        None => false,
    }
}

/// A pool's limits. The CPU share, a fraction, is kept by the caller.
pub struct InterpreterQuota {
    pub max_actors: Option<usize>,
    pub max_mailbox_total: Option<usize>,
    pub memory_soft_limit_bytes: Option<u64>,
    pub max_handler_ms: Option<u64>,
    pub module_allowlist: Option<Vec<String>>,
    pub module_denylist: Vec<String>,
    pub import_policy: String,
}

impl Default for InterpreterQuota {
    /// No limit, no list, an empty import policy.
    fn default() -> (q: Self)
        ensures
            q.max_actors is None,
            q.max_mailbox_total is None,
            q.memory_soft_limit_bytes is None,
            q.max_handler_ms is None,
            q.module_allowlist is None,
            q.module_denylist@.len() == 0,
            q.import_policy@.len() == 0,
    {
        InterpreterQuota {
            max_actors: None,
            max_mailbox_total: None,
            memory_soft_limit_bytes: None,
            max_handler_ms: None,
            module_allowlist: None,
            module_denylist: Vec::new(),
            import_policy: String::new(),
        }
    }
}

/// The counters of a pool at one moment.
#[derive(Debug, Clone, Copy, PartialEq, Eq, Structural)]
pub struct InterpreterMetricsSnapshot {
    pub actors_hosted: usize,
    pub messages_handled: u64,
    pub gil_hold_ns_total: u64,
    pub mailbox_depth_total: usize,
    pub handler_panics: u64,
    pub long_handlers: u64,
}

/// Why a pool refused an actor.
#[derive(Debug, Clone, PartialEq, Eq)]
pub enum InterpreterError {
    /// The pool already hosts `max_actors` actors.
    Overloaded { label: String, max_actors: usize },
}

/// The text of an overload refusal.
pub open spec fn overloaded_message(label: Seq<char>, max_actors: usize) -> Seq<char> {
    "interpreter `"@ + label + "` reached max_actors="@ + decimal(max_actors as nat)
}

impl InterpreterError {
    /// The error text.
    pub fn message(&self) -> (s: String)
        ensures
            match self {
                InterpreterError::Overloaded { label, max_actors } => s@ == overloaded_message(
                    label@,
                    *max_actors,
                ),
            },
    {
        match self {
            InterpreterError::Overloaded { label, max_actors } => {
                let mut s = String::from_str("interpreter `");
                s.append(label.as_str());
                s.append("` reached max_actors=");
                push_decimal(&mut s, *max_actors as u64);
                s
            },
        }
    }
}

/// One pool: its label, kind, quota, workers and counters.
pub struct InterpreterInstance<W> {
    label: String,
    kind: InterpreterKind,
    quota: InterpreterQuota,
    workers: Vec<W>,
    metrics: InterpreterMetricsSnapshot,
    next: usize,
}

impl<W> InterpreterInstance<W> {
    /// The label.
    pub closed spec fn label_view(&self) -> Seq<char> {
        self.label@
    }

    /// The kind.
    pub closed spec fn kind_view(&self) -> InterpreterKind {
        self.kind
    }

    /// The quota.
    pub closed spec fn quota_view(&self) -> InterpreterQuota {
        self.quota
    }

    /// The label.
    pub fn label(&self) -> (s: &str)
        ensures
            s@ == self.label_view(),
    {
        self.label.as_str()
    }

    /// The kind.
    pub fn kind(&self) -> (k: InterpreterKind)
        ensures
            k == self.kind_view(),
    {
        self.kind
    }

    /// The quota.
    pub fn quota(&self) -> (q: &InterpreterQuota)
        ensures
            *q == self.quota_view(),
    {
        &self.quota
    }

    /// The workers, in order.
    pub closed spec fn workers_view(&self) -> Seq<W> {
        self.workers@
    }

    /// The counters.
    pub closed spec fn metrics_view(&self) -> InterpreterMetricsSnapshot {
        self.metrics
    }

    /// The round-robin cursor of `any_worker`.
    pub closed spec fn cursor(&self) -> usize {
        self.next
    }

    /// A pool with the given workers (one per worker of its kind, started
    /// by the caller) and every counter at zero.
    pub fn new(label: String, kind: InterpreterKind, quota: InterpreterQuota, workers: Vec<W>) -> (p: Self)
        ensures
            p.label_view() == label@,
            p.kind_view() == kind,
            p.quota_view() == quota,
            p.workers_view() == workers@,
            p.metrics_view() == (InterpreterMetricsSnapshot {
                actors_hosted: 0,
                messages_handled: 0,
                gil_hold_ns_total: 0,
                mailbox_depth_total: 0,
                handler_panics: 0,
                long_handlers: 0,
            }),
            p.cursor() == 0,
    {
        InterpreterInstance {
            label,
            kind,
            quota,
            workers,
            metrics: InterpreterMetricsSnapshot {
                actors_hosted: 0,
                messages_handled: 0,
                gil_hold_ns_total: 0,
                mailbox_depth_total: 0,
                handler_panics: 0,
                long_handlers: 0,
            },
            next: 0,
        }
    }

    /// The number of workers.
    pub fn worker_count(&self) -> (n: usize)
        ensures
            n == self.workers_view().len(),
    {
        self.workers.len()
    }

    /// Counts one more hosted actor; refused, with nothing counted, when
    /// the pool already hosts its `max_actors`.
    pub fn register_actor(&mut self) -> (r: Result<(), InterpreterError>)
        ensures
            final(self).label_view() == old(self).label_view(),
            final(self).kind_view() == old(self).kind_view(),
            final(self).quota_view() == old(self).quota_view(),
            final(self).workers_view() == old(self).workers_view(),
            final(self).cursor() == old(self).cursor(),
            match old(self).quota_view().max_actors {
                Some(cap) if old(self).metrics_view().actors_hosted >= cap => {
                    &&& r matches Err(InterpreterError::Overloaded { label, max_actors })
                        && label@ == old(self).label_view() && max_actors == cap
                    &&& final(self).metrics_view() == old(self).metrics_view()
                },
                _ => {
                    &&& r is Ok
                    &&& final(self).metrics_view() == (InterpreterMetricsSnapshot {
                        actors_hosted: old(self).metrics_view().actors_hosted.wrapping_add(1),
                        ..old(self).metrics_view()
                    })
                },
            },
    {
        match self.quota.max_actors {
            Some(cap) => {
                if self.metrics.actors_hosted >= cap {
                    return Err(
                        InterpreterError::Overloaded { label: self.label.clone(), max_actors: cap },
                    );
                }
            },
            None => {},
        }
        self.metrics.actors_hosted = self.metrics.actors_hosted.wrapping_add(1);
        Ok(())
    }

    /// Counts one hosted actor less.
    pub fn unregister_actor(&mut self)
        ensures
            final(self).label_view() == old(self).label_view(),
            final(self).kind_view() == old(self).kind_view(),
            final(self).quota_view() == old(self).quota_view(),
            final(self).workers_view() == old(self).workers_view(),
            final(self).cursor() == old(self).cursor(),
            final(self).metrics_view() == (InterpreterMetricsSnapshot {
                actors_hosted: old(self).metrics_view().actors_hosted.wrapping_sub(1),
                ..old(self).metrics_view()
            }),
    {
        self.metrics.actors_hosted = self.metrics.actors_hosted.wrapping_sub(1);
    }

    /// The worker of an actor, sticky by the actor's hash.
    pub fn worker_for(&self, actor_hash: u64) -> (w: &W)
        requires
            self.workers_view().len() > 0,
        ensures
            *w == self.workers_view()[(actor_hash as usize) as int % self.workers_view().len() as int],
    {
        let n = self.workers.len();
        let idx = (actor_hash as usize) % n;
        &self.workers[idx]
    }

    /// The next worker, round-robin.
    pub fn any_worker(&mut self) -> (w: &W)
        requires
            old(self).workers_view().len() > 0,
        ensures
            *w == old(self).workers_view()[old(self).cursor() as int % old(self).workers_view().len() as int],
            final(self).cursor() == old(self).cursor().wrapping_add(1),
            final(self).label_view() == old(self).label_view(),
            final(self).kind_view() == old(self).kind_view(),
            final(self).quota_view() == old(self).quota_view(),
            final(self).workers_view() == old(self).workers_view(),
            final(self).metrics_view() == old(self).metrics_view(),
    {
        let n = self.workers.len();
        let i = self.next % n;
        self.next = self.next.wrapping_add(1);
        &self.workers[i]
    }

    /// Records one handled message that held the interpreter for `dt_ns`
    /// nanoseconds; it counts as long when it ran past the quota's
    /// `max_handler_ms` in whole milliseconds. Returns whether it did.
    pub fn record_handled(&mut self, dt_ns: u64) -> (long: bool)
        ensures
            long == (old(self).quota_view().max_handler_ms matches Some(max) && dt_ns / 1_000_000 > max),
            final(self).metrics_view() == (InterpreterMetricsSnapshot {
                gil_hold_ns_total: old(self).metrics_view().gil_hold_ns_total.wrapping_add(dt_ns),
                messages_handled: old(self).metrics_view().messages_handled.wrapping_add(1),
                long_handlers: if long {
                    old(self).metrics_view().long_handlers.wrapping_add(1)
                } else {
                    old(self).metrics_view().long_handlers
                },
                ..old(self).metrics_view()
            }),
            final(self).label_view() == old(self).label_view(),
            final(self).kind_view() == old(self).kind_view(),
            final(self).quota_view() == old(self).quota_view(),
            final(self).workers_view() == old(self).workers_view(),
            final(self).cursor() == old(self).cursor(),
    {
        self.metrics.gil_hold_ns_total = self.metrics.gil_hold_ns_total.wrapping_add(dt_ns);
        self.metrics.messages_handled = self.metrics.messages_handled.wrapping_add(1);
        let long = match self.quota.max_handler_ms {
            Some(max) => dt_ns / 1_000_000 > max,
            None => false,
        };
        if long {
            self.metrics.long_handlers = self.metrics.long_handlers.wrapping_add(1);
        }
        long
    }

    /// Records a handler that failed with no one waiting for its reply.
    pub fn record_panic(&mut self)
        ensures
            final(self).metrics_view() == (InterpreterMetricsSnapshot {
                handler_panics: old(self).metrics_view().handler_panics.wrapping_add(1),
                ..old(self).metrics_view()
            }),
            final(self).label_view() == old(self).label_view(),
            final(self).kind_view() == old(self).kind_view(),
            final(self).quota_view() == old(self).quota_view(),
            final(self).workers_view() == old(self).workers_view(),
            final(self).cursor() == old(self).cursor(),
    {
        self.metrics.handler_panics = self.metrics.handler_panics.wrapping_add(1);
    }

    /// The counters now.
    pub fn snapshot_metrics(&self) -> (s: InterpreterMetricsSnapshot)
        ensures
            s == self.metrics_view(),
    {
        self.metrics
    }
}

/// The pools, one per label.
pub struct InterpreterRegistry<P> {
    pools: StrMap<P>,
}

impl<P> InterpreterRegistry<P> {
    /// The pool of each label.
    pub closed spec fn view(&self) -> Map<Seq<char>, P> {
        self.pools@
    }

    pub closed spec fn wf(&self) -> bool {
        self.pools.wf()
    }

    /// No pool.
    pub fn new() -> (r: Self)
        ensures
            r.wf(),
            r.view() == Map::<Seq<char>, P>::empty(),
    {
        InterpreterRegistry { pools: StrMap::new() }
    }

    /// The pool of `label`, made by `make` when there is none yet (an
    /// existing pool is kept as it is, whatever kind or quota it was made
    /// with).
    pub fn get_or_create<F: FnOnce() -> P>(&mut self, label: &str, make: F) -> (p: &P)
        requires
            old(self).wf(),
            make.requires(()),
        ensures
            final(self).wf(),
            old(self).view().contains_key(label@) ==> final(self).view() == old(self).view(),
            !old(self).view().contains_key(label@) ==> exists|made: P|
                make.ensures((), made) && final(self).view() == old(self).view().insert(label@, made),
            final(self).view().contains_key(label@),
            *p == final(self).view()[label@],
    {
        if !self.pools.contains_key(label) {
            let made = make();
            self.pools.insert(String::from_str(label), made);
        }
        self.pools.get(label).unwrap()
    }

    /// The pool of `label`, if any.
    pub fn get(&self, label: &str) -> (p: Option<&P>)
        requires
            self.wf(),
        ensures
            match p {
                Some(x) => self.view().contains_key(label@) && *x == self.view()[label@],
                None => !self.view().contains_key(label@),
            },
    {
        self.pools.get(label)
    }

    /// Every label, in increasing order.
    pub fn labels(&self) -> (v: Vec<String>)
        requires
            self.wf(),
        ensures
            strictly_sorted(views(v@)),
            forall|x: Seq<char>| #[trigger] views(v@).contains(x) <==> self.view().contains_key(x),
    {
        sorted_keys(&self.pools)
    }
}

} // verus!
