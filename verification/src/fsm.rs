//! A finite-state machine whose handlers and hooks are opaque callables
//! (Python objects in the bindings): the builder collects them, and the
//! machine decides which one runs for a message and what state follows.
//! The callables themselves are run through closures that the caller
//! hands in.

use vstd::prelude::*;
use crate::str_map::StrMap;

verus! {

/// Why a builder could not produce a machine.
#[derive(Clone, Copy, Debug, PartialEq, Eq, Structural)]
pub enum FsmBuildError {
    /// `start_with` was never called.
    StartWithRequired,
}

impl FsmBuildError {
    /// The error text.
    pub fn message(&self) -> (s: &'static str)
        ensures
            s@ == "FsmBuilder: start_with required"@,
    {
        "FsmBuilder: start_with required"
    }
}

/// Collects the initial state, the handlers and the hooks of a machine.
pub struct FsmBuilder<H, D> {
    initial: Option<(String, D)>,
    handlers: StrMap<H>,
    fallback: Option<H>,
    on_transition: Option<H>,
    on_termination: Option<H>,
}

impl<H, D> FsmBuilder<H, D> {
    /// The initial state name and data, once `start_with` was called.
    pub closed spec fn initial_view(&self) -> Option<(Seq<char>, D)> {
        match self.initial {
            Some((s, d)) => Some((s@, d)),
            None => None,
        }
    }

    /// The per-state handlers.
    pub closed spec fn handlers_view(&self) -> Map<Seq<char>, H> {
        self.handlers@
    }

    /// The handler for states that have none of their own.
    pub closed spec fn fallback_view(&self) -> Option<H> {
        self.fallback
    }

    /// The hook run on a change of state.
    pub closed spec fn transition_hook(&self) -> Option<H> {
        self.on_transition
    }

    /// The hook run on `stop`.
    pub closed spec fn termination_hook(&self) -> Option<H> {
        self.on_termination
    }

    pub closed spec fn wf(&self) -> bool {
        self.handlers.wf()
    }

    /// A builder with nothing set.
    pub fn new() -> (b: Self)
        ensures
            b.wf(),
            b.initial_view() is None,
            b.handlers_view() == Map::<Seq<char>, H>::empty(),
            b.fallback_view() is None,
            b.transition_hook() is None,
            b.termination_hook() is None,
    {
        FsmBuilder {
            initial: None,
            handlers: StrMap::new(),
            fallback: None,
            on_transition: None,
            on_termination: None,
        }
    }

    /// Sets the initial state and data.
    pub fn start_with(&mut self, state: String, data: D)
        requires
            old(self).wf(),
        ensures
            final(self).wf(),
            final(self).initial_view() == Some((state@, data)),
            final(self).handlers_view() == old(self).handlers_view(),
            final(self).fallback_view() == old(self).fallback_view(),
            final(self).transition_hook() == old(self).transition_hook(),
            final(self).termination_hook() == old(self).termination_hook(),
    {
        self.initial = Some((state, data));
    }

    /// Sets the handler of `state`, replacing an earlier one.
    pub fn when_state(&mut self, state: String, handler: H)
        requires
            old(self).wf(),
        ensures
            final(self).wf(),
            final(self).initial_view() == old(self).initial_view(),
            final(self).handlers_view() == old(self).handlers_view().insert(state@, handler),
            final(self).fallback_view() == old(self).fallback_view(),
            final(self).transition_hook() == old(self).transition_hook(),
            final(self).termination_hook() == old(self).termination_hook(),
    {
        self.handlers.insert(state, handler);
    }

    /// Sets the handler for states without one of their own.
    pub fn whenever(&mut self, handler: H)
        requires
            old(self).wf(),
        ensures
            final(self).wf(),
            final(self).initial_view() == old(self).initial_view(),
            final(self).handlers_view() == old(self).handlers_view(),
            final(self).fallback_view() == Some(handler),
            final(self).transition_hook() == old(self).transition_hook(),
            final(self).termination_hook() == old(self).termination_hook(),
    {
        self.fallback = Some(handler);
    }

    /// Sets the hook run on a change of state.
    pub fn on_transition(&mut self, hook: H)
        requires
            old(self).wf(),
        ensures
            final(self).wf(),
            final(self).initial_view() == old(self).initial_view(),
            final(self).handlers_view() == old(self).handlers_view(),
            final(self).fallback_view() == old(self).fallback_view(),
            final(self).transition_hook() == Some(hook),
            final(self).termination_hook() == old(self).termination_hook(),
    {
        self.on_transition = Some(hook);
    }

    /// Sets the hook run on `stop`.
    pub fn on_termination(&mut self, hook: H)
        requires
            old(self).wf(),
        ensures
            final(self).wf(),
            final(self).initial_view() == old(self).initial_view(),
            final(self).handlers_view() == old(self).handlers_view(),
            final(self).fallback_view() == old(self).fallback_view(),
            final(self).transition_hook() == old(self).transition_hook(),
            final(self).termination_hook() == Some(hook),
    {
        self.on_termination = Some(hook);
    }

    /// The machine, in its initial state with everything the builder
    /// collected; refused when `start_with` was never called.
    pub fn build(self) -> (r: Result<Fsm<H, D>, FsmBuildError>)
        requires
            self.wf(),
        ensures
            match self.initial_view() {
                None => r == Err::<Fsm<H, D>, FsmBuildError>(FsmBuildError::StartWithRequired),
                Some((s, d)) => r matches Ok(m) && {
                    &&& m.wf()
                    &&& m.state_view() == s
                    &&& m.data_view() == d
                    &&& m.handlers_view() == self.handlers_view()
                    &&& m.fallback_view() == self.fallback_view()
                    &&& m.transition_hook() == self.transition_hook()
                    &&& m.termination_hook() == self.termination_hook()
                },
            },
    {
        match self.initial {
            None => Err(FsmBuildError::StartWithRequired),
            Some((state, data)) => Ok(
                Fsm {
                    state,
                    data,
                    handlers: self.handlers,
                    fallback: self.fallback,
                    on_transition: self.on_transition,
                    on_termination: self.on_termination,
                },
            ),
        }
    }
}

/// A built machine: its current state and data, and its handlers.
pub struct Fsm<H, D> {
    state: String,
    data: D,
    handlers: StrMap<H>,
    fallback: Option<H>,
    on_transition: Option<H>,
    on_termination: Option<H>,
}

impl<H, D> Fsm<H, D> {
    /// The current state, as the string the handlers are given.
    pub closed spec fn state_string(&self) -> String {
        self.state
    }

    /// The name of the current state.
    pub open spec fn state_view(&self) -> Seq<char> {
        self.state_string()@
    }

    /// The current data.
    pub closed spec fn data_view(&self) -> D {
        self.data
    }

    /// The per-state handlers.
    pub closed spec fn handlers_view(&self) -> Map<Seq<char>, H> {
        self.handlers@
    }

    /// The handler for states that have none of their own.
    pub closed spec fn fallback_view(&self) -> Option<H> {
        self.fallback
    }

    /// The hook run on a change of state.
    pub closed spec fn transition_hook(&self) -> Option<H> {
        self.on_transition
    }

    /// The hook run on `stop`.
    pub closed spec fn termination_hook(&self) -> Option<H> {
        self.on_termination
    }

    pub closed spec fn wf(&self) -> bool {
        self.handlers.wf()
    }

    /// The handler that a message in the current state goes to: the
    /// state's own, else the fallback, else none.
    pub open spec fn current_handler(&self) -> Option<H> {
        if self.handlers_view().contains_key(self.state_view()) {
            Some(self.handlers_view()[self.state_view()])
        } else {
            self.fallback_view()
        }
    }

    /// `other` is this machine moved to state `s` with data `d`.
    pub open spec fn moved_to(&self, other: Self, s: Seq<char>, d: D) -> bool {
        &&& other.wf()
        &&& other.state_view() == s
        &&& other.data_view() == d
        &&& other.handlers_view() == self.handlers_view()
        &&& other.fallback_view() == self.fallback_view()
        &&& other.transition_hook() == self.transition_hook()
        &&& other.termination_hook() == self.termination_hook()
    }

    /// The current state.
    pub fn state(&self) -> (s: &str)
        ensures
            s@ == self.state_view(),
    {
        self.state.as_str()
    }

    /// The current data.
    pub fn data(&self) -> (d: &D)
        ensures
            *d == self.data_view(),
    {
        &self.data
    }

    fn handler(&self) -> (h: Option<&H>)
        requires
            self.wf(),
        ensures
            match h {
                Some(x) => self.current_handler() == Some(*x),
                None => self.current_handler() is None,
            },
    {
        match self.handlers.get(self.state.as_str()) {
            Some(h) => Some(h),
            None => match &self.fallback {
                Some(f) => Some(f),
                None => None,
            },
        }
    }

    /// Processes one message. The handler for the current state (or the
    /// fallback) is run through `invoke` with the state, the data and the
    /// message; when it answers with a new state and data, the machine
    /// moves there, after running the transition hook through `notify`
    /// with the old and the new state name if the name changed. A failure
    /// of either call is returned and leaves the machine as it was; with
    /// no handler, or no answer, the machine stays.
    pub fn handle<M, E, I, T>(&mut self, msg: &M, invoke: &I, notify: &T) -> (r: Result<(), E>) where
        I: Fn(&H, &String, &D, &M) -> Result<Option<(String, D)>, E>,
        T: Fn(&H, &String, &String) -> Result<(), E>,

        requires
            old(self).wf(),
            forall|h: &H, s: &String, d: &D, m: &M| invoke.requires((h, s, d, m)),
            forall|h: &H, a: &String, b: &String| notify.requires((h, a, b)),
        ensures
            final(self).wf(),
            match old(self).current_handler() {
                None => r is Ok && *final(self) == *old(self),
                Some(h) => exists|answer: Result<Option<(String, D)>, E>|
                    {
                        &&& invoke.ensures(
                            (&h, &old(self).state_string(), &old(self).data_view(), msg),
                            answer,
                        )
                        &&& match answer {
                            Err(e) => r == Err::<(), E>(e) && *final(self) == *old(self),
                            Ok(None) => r is Ok && *final(self) == *old(self),
                            Ok(Some((s, d))) => if s@ != old(self).state_view()
                                && old(self).transition_hook() is Some {
                                exists|hooked: Result<(), E>|
                                    {
                                        &&& notify.ensures(
                                            (
                                                &old(self).transition_hook()->0,
                                                &old(self).state_string(),
                                                &s,
                                            ),
                                            hooked,
                                        )
                                        &&& match hooked {
                                            Err(e) => r == Err::<(), E>(e) && *final(self)
                                                == *old(self),
                                            Ok(_) => r is Ok && old(self).moved_to(
                                                *final(self),
                                                s@,
                                                d,
                                            ),
                                        }
                                    }
                            } else {
                                r is Ok && old(self).moved_to(*final(self), s@, d)
                            },
                        }
                    },
            },
    {
        let answer = match self.handler() {
            None => {
                return Ok(());
            },
            Some(h) => invoke(h, &self.state, &self.data, msg),
        };
        match answer {
            Err(e) => Err(e),
            Ok(None) => Ok(()),
            Ok(Some((s, d))) => {
                if !crate::text::str_eq(s.as_str(), self.state.as_str()) {
                    if let Some(hook) = &self.on_transition {
                        match notify(hook, &self.state, &s) {
                            Err(e) => {
                                return Err(e);
                            },
                            Ok(()) => {},
                        }
                    }
                }
                self.state = s;
                self.data = d;
                Ok(())
            },
        }
    }

    /// Runs the termination hook, if any, through `notify` with the
    /// current state and data.
    pub fn stop<E, T>(&self, notify: &T) -> (r: Result<(), E>) where
        T: Fn(&H, &String, &D) -> Result<(), E>,

        requires
            forall|h: &H, s: &String, d: &D| notify.requires((h, s, d)),
        ensures
            match self.termination_hook() {
                None => r is Ok,
                Some(h) => notify.ensures((&h, &self.state_string(), &self.data_view()), r),
            },
    {
        match &self.on_termination {
            Some(h) => notify(h, &self.state, &self.data),
            None => Ok(()),
        }
    }
}

} // verus!
