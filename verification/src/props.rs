//! Spawn recipes for Python actors: the factory (opaque here), the
//! dispatcher and interpreter pool they run on, the mailbox, and the
//! supervisor strategy.

use vstd::prelude::*;

verus! {

/// What an actor is spawned from.
pub struct PyProps<F, S> {
    pub factory: F,
    pub dispatcher: String,
    pub interpreter_role: String,
    pub mailbox: Option<String>,
    /// `None`: the runtime's default strategy.
    pub supervisor_strategy: Option<S>,
}

impl<F, S> PyProps<F, S> {
    /// A recipe with the given routing and no strategy of its own.
    pub fn create(factory: F, dispatcher: String, interpreter_role: String, mailbox: Option<String>) -> (p: Self)
        ensures
            p.factory == factory,
            p.dispatcher == dispatcher,
            p.interpreter_role == interpreter_role,
            p.mailbox == mailbox,
            p.supervisor_strategy is None,
    {
        PyProps { factory, dispatcher, interpreter_role, mailbox, supervisor_strategy: None }
    }

    /// A recipe on the pinned dispatcher and the `default` pool.
    pub fn with_defaults(factory: F) -> (p: Self)
        ensures
            p.factory == factory,
            p.dispatcher@ == "python-pinned"@,
            p.interpreter_role@ == "default"@,
            p.mailbox is None,
            p.supervisor_strategy is None,
    {
        PyProps::create(factory, String::from_str("python-pinned"), String::from_str("default"), None)
    }

    /// The same recipe on another dispatcher.
    pub fn with_dispatcher(self, dispatcher: String) -> (p: Self)
        ensures
            p == (PyProps { dispatcher, ..self }),
    {
        PyProps { dispatcher, ..self }
    }

    /// The same recipe on another interpreter pool.
    pub fn with_interpreter_role(self, role: String) -> (p: Self)
        ensures
            p == (PyProps { interpreter_role: role, ..self }),
    {
        PyProps { interpreter_role: role, ..self }
    }

    /// The same recipe with a mailbox.
    pub fn with_mailbox(self, mailbox: String) -> (p: Self)
        ensures
            p == (PyProps { mailbox: Some(mailbox), ..self }),
    {
        PyProps { mailbox: Some(mailbox), ..self }
    }

    /// The same recipe with a supervisor strategy.
    pub fn with_supervisor_strategy(self, strategy: S) -> (p: Self)
        ensures
            p == (PyProps { supervisor_strategy: Some(strategy), ..self }),
    {
        PyProps { supervisor_strategy: Some(strategy), ..self }
    }
}

} // verus!
