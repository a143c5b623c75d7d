//! Cluster client and receptionist: named services, initial contacts tried
//! round-robin, and the attempt budget of contact-point discovery.

use vstd::prelude::*;
use crate::str_map::StrMap;
use crate::sorted::{sorted_keys, strictly_sorted, views};

verus! {

/// Services registered by name.
pub struct ClusterReceptionist<R> {
    services: StrMap<R>,
}

impl<R> View for ClusterReceptionist<R> {
    type V = Map<Seq<char>, R>;

    closed spec fn view(&self) -> Map<Seq<char>, R> {
        self.services@
    }
}

impl<R> ClusterReceptionist<R> {
    /// The representation invariant.
    pub closed spec fn wf(&self) -> bool {
        self.services.wf()
    }

    pub fn new() -> (r: Self)
        ensures
            r.wf(),
            r@ == Map::<Seq<char>, R>::empty(),
    {
        ClusterReceptionist { services: StrMap::new() }
    }

    /// Registers `r` under `name`, replacing an earlier registration.
    pub fn register(&mut self, name: String, r: R)
        requires
            old(self).wf(),
        ensures
            final(self).wf(),
            final(self)@ == old(self)@.insert(name@, r),
    {
        self.services.insert(name, r)
    }

    /// The service registered under `name`.
    pub fn lookup(&self, name: &str) -> (r: Option<&R>)
        requires
            self.wf(),
        ensures
            match r {
                Some(v) => self@.contains_key(name@) && *v == self@[name@],
                None => !self@.contains_key(name@),
            },
    {
        self.services.get(name)
    }

    /// Drops the registration under `name`.
    pub fn unregister(&mut self, name: &str)
        requires
            old(self).wf(),
        ensures
            final(self).wf(),
            final(self)@ == old(self)@.remove(name@),
    {
        self.services.remove(name);
    }

    /// The registered names, in increasing order.
    pub fn registered(&self) -> (v: Vec<String>)
        requires
            self.wf(),
        ensures
            strictly_sorted(views(v@)),
            forall|x: Seq<char>| #[trigger] views(v@).contains(x) <==> self@.contains_key(x),
    {
        sorted_keys(&self.services)
    }
}

/// Settings of a cluster client. Times are in milliseconds.
#[derive(Debug)]
#[non_exhaustive]
pub struct ClusterClientSettings {
    /// Initial bootstrap addresses, tried in order.
    pub initial_contacts: Vec<String>,
    /// Time to wait for an initial contact before trying the next.
    pub establishing_get_contacts_interval: u64,
    /// Backoff between full re-attempts after exhausting all initial
    /// contacts.
    pub reconnect_timeout: u64,
    /// Total attempts before giving up.
    pub max_attempts: u32,
}

impl Default for ClusterClientSettings {
    fn default() -> (s: Self)
        ensures
            s.initial_contacts@.len() == 0,
            s.establishing_get_contacts_interval == 3000,
            s.reconnect_timeout == 10000,
            s.max_attempts == 10,
    {
        ClusterClientSettings {
            initial_contacts: Vec::new(),
            establishing_get_contacts_interval: 3000,
            reconnect_timeout: 10000,
            max_attempts: 10,
        }
    }
}

impl Clone for ClusterClientSettings {
    fn clone(&self) -> (s: Self)
        ensures
            s.initial_contacts@ == self.initial_contacts@,
            s.establishing_get_contacts_interval == self.establishing_get_contacts_interval,
            s.reconnect_timeout == self.reconnect_timeout,
            s.max_attempts == self.max_attempts,
    {
        let mut contacts: Vec<String> = Vec::new();
        let mut i: usize = 0;
        while i < self.initial_contacts.len()
            invariant
                i <= self.initial_contacts@.len(),
                contacts@ == self.initial_contacts@.take(i as int),
            decreases self.initial_contacts@.len() - i,
        {
            contacts.push(self.initial_contacts[i].clone());
            assert(contacts@ =~= self.initial_contacts@.take(i + 1));
            i = i + 1;
        }
        assert(self.initial_contacts@.take(self.initial_contacts@.len() as int) =~= self.initial_contacts@);
        ClusterClientSettings {
            initial_contacts: contacts,
            establishing_get_contacts_interval: self.establishing_get_contacts_interval,
            reconnect_timeout: self.reconnect_timeout,
            max_attempts: self.max_attempts,
        }
    }
}

impl ClusterClientSettings {
    /// The same settings with these initial contacts.
    pub fn with_initial_contacts(self, contacts: Vec<String>) -> (s: Self)
        ensures
            s.initial_contacts@ == contacts@,
            s.establishing_get_contacts_interval == self.establishing_get_contacts_interval,
            s.reconnect_timeout == self.reconnect_timeout,
            s.max_attempts == self.max_attempts,
    {
        ClusterClientSettings { initial_contacts: contacts, ..self }
    }

    /// The same settings with this attempt budget.
    pub fn with_max_attempts(self, n: u32) -> (s: Self)
        ensures
            s.initial_contacts@ == self.initial_contacts@,
            s.establishing_get_contacts_interval == self.establishing_get_contacts_interval,
            s.reconnect_timeout == self.reconnect_timeout,
            s.max_attempts == n,
    {
        ClusterClientSettings { max_attempts: n, ..self }
    }
}

/// Why contact-point discovery failed.
#[derive(Debug, Clone, Copy, PartialEq, Eq, Structural)]
#[non_exhaustive]
pub enum ClusterClientError {
    /// No initial contacts are configured.
    NoContacts,
    /// Every attempt failed.
    Exhausted { attempts: u32 },
}

/// A cluster client: the receptionist handle `H`, its settings, and the
/// round-robin cursor over the initial contacts.
pub struct ClusterClient<H> {
    pub receptionist: H,
    settings: ClusterClientSettings,
    contact_cursor: usize,
}

impl<H> ClusterClient<H> {
    /// The settings the client was made with.
    pub closed spec fn settings_spec(&self) -> ClusterClientSettings {
        self.settings
    }

    /// The receptionist handle.
    pub closed spec fn handle(&self) -> H {
        self.receptionist
    }

    /// How many contacts have been handed out (modulo the word size).
    pub closed spec fn cursor(&self) -> usize {
        self.contact_cursor
    }

    pub fn new(receptionist: H) -> (c: Self)
        ensures
            c.handle() == receptionist,
            c.settings_spec().initial_contacts@.len() == 0,
            c.settings_spec().max_attempts == 10,
            c.settings_spec().establishing_get_contacts_interval == 3000,
            c.cursor() == 0,
    {
        Self::with_settings(receptionist, ClusterClientSettings::default())
    }

    pub fn with_settings(receptionist: H, settings: ClusterClientSettings) -> (c: Self)
        ensures
            c.handle() == receptionist,
            c.settings_spec() == settings,
            c.cursor() == 0,
    {
        ClusterClient { receptionist, settings, contact_cursor: 0 }
    }

    /// The next initial contact, round-robin; `None` if there are none.
    pub fn next_contact(&mut self) -> (r: Option<String>)
        ensures
            final(self).handle() == old(self).handle(),
            final(self).settings_spec() == old(self).settings_spec(),
            match r {
                Some(c) => {
                    let contacts = old(self).settings_spec().initial_contacts@;
                    &&& contacts.len() > 0
                    &&& c == contacts[(old(self).cursor() as int) % (contacts.len() as int)]
                    &&& final(self).cursor() == old(self).cursor().wrapping_add(1)
                },
                None => old(self).settings_spec().initial_contacts@.len() == 0 && *final(self)
                    == *old(self),
            },
    {
        let n = self.settings.initial_contacts.len();
        if n == 0 {
            return None;
        }
        let i = self.contact_cursor % n;
        self.contact_cursor = self.contact_cursor.wrapping_add(1);
        Some(self.settings.initial_contacts[i].clone())
    }

    /// Starts contact-point discovery: refused when no contacts are
    /// configured, otherwise the first attempt is number zero.
    pub fn begin_establish(&self) -> (r: Result<u32, ClusterClientError>)
        ensures
            match r {
                Ok(a) => a == 0 && self.settings_spec().initial_contacts@.len() > 0,
                Err(e) => e == ClusterClientError::NoContacts
                    && self.settings_spec().initial_contacts@.len() == 0,
            },
    {
        if self.settings.initial_contacts.len() == 0 {
            Err(ClusterClientError::NoContacts)
        } else {
            Ok(0)
        }
    }

    /// The contact to try at attempt number `attempt`, or the final error
    /// once the attempt budget is spent.
    pub fn attempt_contact(&mut self, attempt: u32) -> (r: Result<String, ClusterClientError>)
        requires
            old(self).settings_spec().initial_contacts@.len() > 0,
        ensures
            final(self).handle() == old(self).handle(),
            final(self).settings_spec() == old(self).settings_spec(),
            match r {
                Ok(c) => {
                    let contacts = old(self).settings_spec().initial_contacts@;
                    &&& attempt < old(self).settings_spec().max_attempts
                    &&& c == contacts[(old(self).cursor() as int) % (contacts.len() as int)]
                    &&& final(self).cursor() == old(self).cursor().wrapping_add(1)
                },
                Err(e) => {
                    &&& attempt >= old(self).settings_spec().max_attempts
                    &&& e == ClusterClientError::Exhausted {
                        attempts: old(self).settings_spec().max_attempts,
                    }
                    &&& *final(self) == *old(self)
                },
            },
    {
        if attempt >= self.settings.max_attempts {
            return Err(ClusterClientError::Exhausted { attempts: self.settings.max_attempts });
        }
        match self.next_contact() {
            Some(c) => Ok(c),
            None => Err(ClusterClientError::NoContacts),
        }
    }

    /// After attempt `attempt` failed: how long to wait before the next one,
    /// or `None` when it was the last.
    pub fn pause_after(&self, attempt: u32) -> (r: Option<u64>)
        ensures
            match r {
                Some(ms) => attempt + 1 < self.settings_spec().max_attempts && ms
                    == self.settings_spec().establishing_get_contacts_interval,
                None => attempt + 1 >= self.settings_spec().max_attempts,
            },
    {
        if (attempt as u64) + 1 < self.settings.max_attempts as u64 {
            Some(self.settings.establishing_get_contacts_interval)
        } else {
            None
        }
    }
}

} // verus!
