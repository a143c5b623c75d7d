//! The cluster singleton's lifecycle and its hand-over buffer.
//!
//! ```text
//! Active(here) -- oldest changed --> HandingOver -- handover ack --> Inactive
//! Inactive ------ elected oldest --> Starting    -- started     --> Active(here)
//! Inactive ------ observed remote --> Active(remote)
//! ```
//!
//! While no singleton is active, messages sent through the proxy are kept
//! (up to the buffer size) and handed back, in the order they came, once
//! a singleton becomes active.

use vstd::prelude::*;

verus! {

/// Singleton lifecycle state; `R` is the kind of reference to the singleton.
#[non_exhaustive]
pub enum SingletonState<R> {
    /// No singleton known yet.
    Inactive,
    /// We are about to become the singleton, but haven't started it.
    Starting,
    /// The singleton lives at this reference.
    Active { ref_: R, here: bool },
    /// We were the singleton; the new oldest member is taking over.
    HandingOver,
}

/// What became of a message sent to the singleton.
pub enum SendOutcome<M> {
    /// A singleton is active: deliver the message to it now.
    Deliver(M),
    /// Kept until a singleton becomes active.
    Buffered,
    /// The buffer was full; the message is handed back undelivered.
    Dropped(M),
}

/// Tracks where the singleton lives and buffers messages while it is not
/// active. `M` is the kind of message kept.
pub struct ClusterSingletonManager<R, M> {
    state: SingletonState<R>,
    buffer: Vec<M>,
    buffer_size: usize,
    drops: u64,
}

/// `b` is what one call can make of the manager `a`: still well formed,
/// with the same buffer size, and no fewer drops counted.
pub open spec fn singleton_step<R, M>(a: ClusterSingletonManager<R, M>, b: ClusterSingletonManager<R, M>) -> bool {
    &&& b.wf()
    &&& b.capacity() == a.capacity()
    &&& a.drop_count() <= b.drop_count()
}

impl<R, M> ClusterSingletonManager<R, M> {
    pub closed spec fn state_spec(&self) -> SingletonState<R> {
        self.state
    }

    /// The messages waiting, oldest first.
    pub closed spec fn pending(&self) -> Seq<M> {
        self.buffer@
    }

    pub closed spec fn capacity(&self) -> usize {
        self.buffer_size
    }

    pub closed spec fn drop_count(&self) -> u64 {
        self.drops
    }

    /// The buffer never holds more than its capacity, and messages wait
    /// only while no singleton is active.
    pub open spec fn wf(&self) -> bool {
        &&& self.pending().len() <= self.capacity()
        &&& self.pending().len() > 0 ==> !(self.state_spec() is Active)
    }

    /// A manager with a buffer of 1000 messages.
    pub fn new() -> (m: Self)
        ensures
            m.wf(),
            m.state_spec() is Inactive,
            m.pending().len() == 0,
            m.capacity() == 1000,
            m.drop_count() == 0,
    {
        Self::with_buffer_size(1000)
    }

    /// A manager with a buffer of `size` messages.
    pub fn with_buffer_size(size: usize) -> (m: Self)
        ensures
            m.wf(),
            m.state_spec() is Inactive,
            m.pending().len() == 0,
            m.capacity() == size,
            m.drop_count() == 0,
    {
        ClusterSingletonManager {
            state: SingletonState::Inactive,
            buffer: Vec::new(),
            buffer_size: size,
            drops: 0,
        }
    }

    pub fn state(&self) -> (s: &SingletonState<R>)
        ensures
            *s == self.state_spec(),
    {
        &self.state
    }

    /// Takes the buffered messages out, oldest first.
    fn flush(&mut self) -> (out: Vec<M>)
        ensures
            out@ == old(self).pending(),
            final(self).pending().len() == 0,
            final(self).state_spec() == old(self).state_spec(),
            final(self).capacity() == old(self).capacity(),
            final(self).drop_count() == old(self).drop_count(),
    {
        let mut out: Vec<M> = Vec::new();
        std::mem::swap(&mut out, &mut self.buffer);
        out
    }

    /// We won the election: the singleton is `r`, here. Returns the buffered
    /// messages, oldest first, for delivery to `r`.
    pub fn set_active_here(&mut self, r: R) -> (out: Vec<M>)
        ensures
            final(self).wf(),
            singleton_step(*old(self), *final(self)),
            final(self).state_spec() == (SingletonState::Active { ref_: r, here: true }),
            out@ == old(self).pending(),
            final(self).pending().len() == 0,
            final(self).capacity() == old(self).capacity(),
            final(self).drop_count() == old(self).drop_count(),
    {
        self.state = SingletonState::Active { ref_: r, here: true };
        self.flush()
    }

    /// Another node hosts the singleton at `r`. Returns the buffered
    /// messages, oldest first, for delivery to `r`.
    pub fn set_active_remote(&mut self, r: R) -> (out: Vec<M>)
        ensures
            final(self).wf(),
            singleton_step(*old(self), *final(self)),
            final(self).state_spec() == (SingletonState::Active { ref_: r, here: false }),
            out@ == old(self).pending(),
            final(self).pending().len() == 0,
            final(self).capacity() == old(self).capacity(),
            final(self).drop_count() == old(self).drop_count(),
    {
        self.state = SingletonState::Active { ref_: r, here: false };
        self.flush()
    }

    /// Begin handing over (we used to be the active singleton).
    pub fn begin_handover(&mut self)
        ensures
            old(self).wf() ==> singleton_step(*old(self), *final(self)),
            final(self).state_spec() is HandingOver,
            final(self).pending() == old(self).pending(),
            final(self).capacity() == old(self).capacity(),
            final(self).drop_count() == old(self).drop_count(),
    {
        self.state = SingletonState::HandingOver;
    }

    /// Begin starting (we were elected as the new oldest).
    pub fn begin_starting(&mut self)
        ensures
            old(self).wf() ==> singleton_step(*old(self), *final(self)),
            final(self).state_spec() is Starting,
            final(self).pending() == old(self).pending(),
            final(self).capacity() == old(self).capacity(),
            final(self).drop_count() == old(self).drop_count(),
    {
        self.state = SingletonState::Starting;
    }

    /// Forget the current singleton.
    pub fn clear(&mut self)
        ensures
            old(self).wf() ==> singleton_step(*old(self), *final(self)),
            final(self).state_spec() is Inactive,
            final(self).pending() == old(self).pending(),
            final(self).capacity() == old(self).capacity(),
            final(self).drop_count() == old(self).drop_count(),
    {
        self.state = SingletonState::Inactive;
    }

    /// The active singleton, if any.
    pub fn current(&self) -> (r: Option<&R>)
        ensures
            match self.state_spec() {
                SingletonState::Active { ref_, .. } => r == Some(&ref_),
                _ => r is None,
            },
    {
        match &self.state {
            SingletonState::Active { ref_, .. } => Some(ref_),
            _ => None,
        }
    }

    /// Routes `msg`: to the active singleton, else into the buffer, else
    /// (buffer full) it is dropped and counted.
    pub fn buffer_or_deliver(&mut self, msg: M) -> (r: SendOutcome<M>)
        requires
            old(self).wf(),
            !(old(self).state_spec() is Active) && old(self).pending().len() >= old(self).capacity()
                ==> old(self).drop_count() < u64::MAX,
        ensures
            singleton_step(*old(self), *final(self)),
            final(self).state_spec() == old(self).state_spec(),
            final(self).capacity() == old(self).capacity(),
            match r {
                SendOutcome::Deliver(m) => {
                    &&& old(self).state_spec() is Active
                    &&& m == msg
                    &&& final(self).pending() == old(self).pending()
                    &&& final(self).drop_count() == old(self).drop_count()
                },
                SendOutcome::Buffered => {
                    &&& !(old(self).state_spec() is Active)
                    &&& old(self).pending().len() < old(self).capacity()
                    &&& final(self).pending() == old(self).pending().push(msg)
                    &&& final(self).drop_count() == old(self).drop_count()
                },
                SendOutcome::Dropped(m) => {
                    &&& !(old(self).state_spec() is Active)
                    &&& old(self).pending().len() >= old(self).capacity()
                    &&& m == msg
                    &&& final(self).pending() == old(self).pending()
                    &&& final(self).drop_count() == old(self).drop_count() + 1
                },
            },
    {
        if let SingletonState::Active { .. } = &self.state {
            return SendOutcome::Deliver(msg);
        }
        if self.buffer.len() >= self.buffer_size {
            self.drops = self.drops + 1;
            return SendOutcome::Dropped(msg);
        }
        self.buffer.push(msg);
        SendOutcome::Buffered
    }

    /// Number of messages waiting.
    pub fn buffered(&self) -> (n: usize)
        ensures
            n == self.pending().len(),
    {
        self.buffer.len()
    }

    /// How many messages the buffer holds at most.
    pub fn buffer_size(&self) -> (n: usize)
        ensures
            n == self.capacity(),
    {
        self.buffer_size
    }

    /// Number of messages dropped because the buffer was full.
    pub fn drops(&self) -> (n: u64)
        ensures
            n == self.drop_count(),
    {
        self.drops
    }
}

/// Through every sequence of calls, messages wait only while no singleton
/// is active: every method keeps `wf`, and `wf` says so.
pub proof fn lemma_waiting_means_no_singleton<R, M>(m: ClusterSingletonManager<R, M>)
    requires
        m.wf(),
    ensures
        m.pending().len() > 0 ==> !(m.state_spec() is Active),
        m.pending().len() <= m.capacity(),
{
}

/// Over any run of calls from a well-formed manager (as `new` and
/// `with_buffer_size` make), the buffer never exceeds its size, messages
/// wait only while no singleton is active, the size never changes, and
/// the drop count never decreases.
pub proof fn lemma_singleton_runs<R, M>(run: Seq<ClusterSingletonManager<R, M>>)
    requires
        run.len() > 0,
        run[0].wf(),
        forall|i: int| 0 <= i < run.len() - 1 ==> singleton_step(#[trigger] run[i], run[i + 1]),
    ensures
        forall|i: int|
            0 <= i < run.len() ==> {
                &&& (#[trigger] run[i]).wf()
                &&& run[i].pending().len() <= run[0].capacity()
                &&& run[i].pending().len() > 0 ==> !(run[i].state_spec() is Active)
                &&& run[i].capacity() == run[0].capacity()
            },
        forall|i: int, j: int|
            0 <= i <= j < run.len() ==> (#[trigger] run[i]).drop_count() <= (#[trigger] run[j]).drop_count(),
    decreases run.len(),
{
    if run.len() > 1 {
        let front = run.drop_last();
        assert forall|i: int| 0 <= i < front.len() - 1 implies singleton_step(#[trigger] front[i], front[i + 1]) by {
            assert(front[i] == run[i] && front[i + 1] == run[i + 1]);
        }
        lemma_singleton_runs(front);
        let last = run.len() - 1;
        assert(singleton_step(run[last - 1], run[last]));
        assert(front[last - 1] == run[last - 1]);
        assert forall|i: int| 0 <= i < run.len() implies {
            &&& (#[trigger] run[i]).wf()
            &&& run[i].pending().len() <= run[0].capacity()
            &&& run[i].pending().len() > 0 ==> !(run[i].state_spec() is Active)
            &&& run[i].capacity() == run[0].capacity()
        } by {
            if i < last {
                assert(front[i] == run[i]);
            }
            assert(front[0] == run[0]);
        }
        assert forall|i: int, j: int| 0 <= i <= j < run.len() implies (#[trigger] run[i]).drop_count()
            <= (#[trigger] run[j]).drop_count() by {
            if j < last {
                assert(front[i] == run[i] && front[j] == run[j]);
            } else if i < last {
                assert(front[i] == run[i]);
                assert(front[i].drop_count() <= front[last - 1].drop_count());
            }
        }
    }
}

} // verus!
