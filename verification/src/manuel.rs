//! The manual backend: events arrive by name, and a handler registered
//! under that name fires once per arrival.
//!
//! The backend owns the `name -> task` registrations and the decision which
//! worker (if any) a received name yields. The host owns the channel the
//! names travel on: its receive loop hands each received name to
//! [`Manuel::dispatch`] and runs the worker that comes back.

use vstd::prelude::*;

use crate::backend::{TaskId, Worker};
use crate::error::Error;
use crate::value::Value;

verus! {

/// The descriptor a manual registration is made with: the name to fire on.
pub struct ManuelTrigger {
    pub name: String,
}

/// The manual backend's registrations.
pub struct Manuel {
    triggers: Vec<(String, TaskId)>,
}

impl View for Manuel {
    type V = Seq<(Seq<char>, TaskId)>;

    closed spec fn view(&self) -> Seq<(Seq<char>, TaskId)> {
        Seq::new(self.triggers@.len(), |i: int| (self.triggers@[i].0@, self.triggers@[i].1))
    }
}

impl Manuel {
    /// Registered names are unique: a second registration under an existing
    /// name is refused, so one name never fires two handlers.
    pub open spec fn wf(self) -> bool {
        forall|i: int, j: int| 0 <= i < j < self@.len() ==> self@[i].0 != self@[j].0
    }

    /// Whether some handler is registered under `name`.
    pub open spec fn spec_has_name(self, name: Seq<char>) -> bool {
        exists|i: int| 0 <= i < self@.len() && self@[i].0 == name
    }

    /// A fresh backend with no registrations. The host pairs it with the
    /// channel that will carry the names.
    pub fn new() -> (m: Manuel)
        ensures
            m@ == Seq::<(Seq<char>, TaskId)>::empty(),
            m.wf(),
    {
        let m = Manuel { triggers: Vec::new() };
        proof {
            assert(m@ =~= Seq::<(Seq<char>, TaskId)>::empty());
        }
        m
    }

    /// Drops every registration.
    pub fn clear(&mut self)
        ensures
            final(self)@ == Seq::<(Seq<char>, TaskId)>::empty(),
            final(self).wf(),
    {
        self.triggers.clear();
        proof {
            assert(self@ =~= Seq::<(Seq<char>, TaskId)>::empty());
        }
    }

    /// Registers `task` under `trigger.name`. Fails, and changes nothing,
    /// exactly when the name is already registered.
    pub fn add_trigger(&mut self, trigger: ManuelTrigger, task: TaskId) -> (r: Result<(), Error>)
        requires
            old(self).wf(),
        ensures
            final(self).wf(),
            old(self).spec_has_name(trigger.name@) ==> r is Err && final(self)@ == old(self)@,
            !old(self).spec_has_name(trigger.name@) ==> r is Ok && final(self)@ == old(self)@.push(
                (trigger.name@, task),
            ),
    {
        if self.contains_name(&trigger.name) {
            return Err(Error::new("already registered".to_owned()));
        }
        let ghost name_view = trigger.name@;
        self.triggers.push((trigger.name, task));
        proof {
            assert(self@ =~= old(self)@.push((name_view, task)));
        }
        Ok(())
    }

    /// Whether `name` is registered.
    pub fn contains_name(&self, name: &String) -> (r: bool)
        ensures
            r == self.spec_has_name(name@),
    {
        let mut i: usize = 0;
        while i < self.triggers.len()
            invariant
                i <= self.triggers.len(),
                forall|j: int| 0 <= j < i ==> self@[j].0 != name@,
            decreases self.triggers.len() - i,
        {
            if self.triggers[i].0 == *name {
                assert(self@[i as int].0 == name@);
                return true;
            }
            i += 1;
        }
        false
    }

    /// The worker a received name yields: the registered handler invoked
    /// with the unit payload, or nothing when the name is unregistered —
    /// unknown names are silently dropped.
    pub fn dispatch(&self, name: &String) -> (r: Option<Worker>)
        ensures
            match r {
                Some(w) => {
                    &&& self.spec_has_name(name@)
                    &&& exists|i: int|
                        0 <= i < self@.len() && self@[i].0 == name@ && w.task == self@[i].1
                    &&& w.payload is Null
                },
                None => !self.spec_has_name(name@),
            },
    {
        let mut i: usize = 0;
        while i < self.triggers.len()
            invariant
                i <= self.triggers.len(),
                forall|j: int| 0 <= j < i ==> self@[j].0 != name@,
            decreases self.triggers.len() - i,
        {
            if self.triggers[i].0 == *name {
                assert(self@[i as int].0 == name@);
                return Some(Worker { task: self.triggers[i].1, payload: Value::Null });
            }
            i += 1;
        }
        None
    }
}

} // verus!
