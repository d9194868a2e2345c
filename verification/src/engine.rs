//! The engine: an ordered collection of backends and the concurrency cap
//! their workers run under.
//!
//! Registrations go through [`Engine::add_trigger`], which forwards each
//! descriptor to the first backend of the descriptor's kind. Running the
//! engine is the host's loop: it starts every backend against one shared
//! abort controller, merges their workers into one stream, and drives a
//! [`Dispatcher`](crate::dispatch::Dispatcher) taken from
//! [`Engine::dispatcher`]; after the loop it waits out the grace window for
//! workers still in flight.

use vstd::prelude::*;

use crate::backend::{Backend, BackendBox, TaskId};
use crate::dispatch::Dispatcher;
use crate::error::Error;
use crate::fs_notify::{FsNotifyTask, FsNotifyTrigger};
use crate::manuel::ManuelTrigger;

verus! {

/// The default concurrency cap.
pub const DEFAULT_CONCURRENCY: usize = 10;

/// The grace window, in seconds: how long a run waits, after its dispatch
/// loop ends, for workers still in flight before abandoning them to the
/// host scheduler.
pub const GRACE_SECONDS: u64 = 5;

/// A registration request: one backend kind's descriptor.
pub enum TriggerDescriptor {
    Manuel(ManuelTrigger),
    FsNotify(FsNotifyTrigger),
}

/// The engine: its backends, in registration order, and the cap.
pub struct Engine {
    backends: Vec<BackendBox>,
    concurrency: usize,
}

/// Whether backend `b` is of the kind descriptor `t` addresses.
pub open spec fn spec_backend_accepts(b: Backend, t: TriggerDescriptor) -> bool {
    match t {
        TriggerDescriptor::Manuel(_) => b is Manuel,
        TriggerDescriptor::FsNotify(_) => b is FsNotify,
    }
}

/// The position of the first backend accepting `t`, or -1 when none does.
pub open spec fn spec_first_accepting(bs: Seq<Backend>, t: TriggerDescriptor) -> int
    decreases bs.len(),
{
    if bs.len() == 0 {
        -1
    } else if spec_backend_accepts(bs[0], t) {
        0
    } else {
        let r = spec_first_accepting(bs.drop_first(), t);
        if r == -1 {
            -1
        } else {
            r + 1
        }
    }
}

pub proof fn lemma_first_accepting(bs: Seq<Backend>, t: TriggerDescriptor)
    ensures
        ({
            let r = spec_first_accepting(bs, t);
            if r == -1 {
                forall|j: int| 0 <= j < bs.len() ==> !spec_backend_accepts(#[trigger] bs[j], t)
            } else {
                &&& 0 <= r < bs.len()
                &&& spec_backend_accepts(bs[r], t)
                &&& forall|j: int| 0 <= j < r ==> !spec_backend_accepts(#[trigger] bs[j], t)
            }
        }),
    decreases bs.len(),
{
    let r = spec_first_accepting(bs, t);
    if bs.len() > 0 && !spec_backend_accepts(bs[0], t) {
        let bs2 = bs.drop_first();
        let r2 = spec_first_accepting(bs2, t);
        lemma_first_accepting(bs2, t);
        if r2 == -1 {
            assert forall|j: int| 0 <= j < bs.len() implies !spec_backend_accepts(
                #[trigger] bs[j],
                t,
            ) by {
                if j > 0 {
                    assert(bs2[j - 1] == bs[j]);
                }
            }
        } else {
            assert(bs2[r2] == bs[r2 + 1]);
            assert forall|j: int| 0 <= j < r implies !spec_backend_accepts(#[trigger] bs[j], t) by {
                if j > 0 {
                    assert(bs2[j - 1] == bs[j]);
                }
            }
        }
    }
}

/// Whether `b` is of the kind `t` addresses.
fn backend_accepts(b: &Backend, t: &TriggerDescriptor) -> (r: bool)
    ensures
        r == spec_backend_accepts(*b, *t),
{
    match (b, t) {
        (Backend::Manuel(_), TriggerDescriptor::Manuel(_)) => true,
        (Backend::FsNotify(_), TriggerDescriptor::FsNotify(_)) => true,
        _ => false,
    }
}

/// What a successful or failed registration does to the engine: the first
/// backend of the descriptor's kind gains the registration (or refuses it,
/// for a duplicate manual name), every other backend and the cap stay as
/// they were.
pub open spec fn spec_add_effect(
    pre: Engine,
    post: Engine,
    t: TriggerDescriptor,
    task: TaskId,
    ok: bool,
) -> bool {
    let i = spec_first_accepting(pre.spec_backends(), t);
    &&& post.spec_concurrency() == pre.spec_concurrency()
    &&& post.spec_backends().len() == pre.spec_backends().len()
    &&& forall|j: int|
        0 <= j < pre.spec_backends().len() && j != i ==> post.spec_backends()[j]
            == pre.spec_backends()[j]
    &&& match (pre.spec_backends()[i], t) {
        (Backend::Manuel(m), TriggerDescriptor::Manuel(mt)) => {
            &&& post.spec_backends()[i] matches Backend::Manuel(m2)
            &&& ok == !m.spec_has_name(mt.name@)
            &&& ok ==> m2@ == m@.push((mt.name@, task))
            &&& !ok ==> m2@ == m@
        },
        (Backend::FsNotify(f), TriggerDescriptor::FsNotify(ft)) => {
            &&& ok
            &&& post.spec_backends()[i] matches Backend::FsNotify(f2)
            &&& f2@ == f@.push(
                (FsNotifyTask { paths: ft.paths, recursive: ft.recursive, work: task }),
            )
        },
        _ => false,
    }
}

impl Engine {
    /// The backends, in the order they were added.
    pub closed spec fn spec_backends(self) -> Seq<Backend> {
        Seq::new(self.backends@.len(), |i: int| self.backends@[i].0)
    }

    /// The concurrency cap.
    pub closed spec fn spec_concurrency(self) -> usize {
        self.concurrency
    }

    /// Every manual backend keeps its names unique.
    pub open spec fn wf(self) -> bool {
        forall|i: int|
            0 <= i < self.spec_backends().len() ==> (#[trigger] self.spec_backends()[i] matches
                Backend::Manuel(m) ==> m.wf())
    }

    /// Whether some backend accepts descriptor `t`. Registering a trigger
    /// without a backend of its kind is a programmer error, not a runtime
    /// condition, so [`Engine::add_trigger`] demands this up front.
    pub open spec fn spec_has_backend_for(self, t: TriggerDescriptor) -> bool {
        spec_first_accepting(self.spec_backends(), t) >= 0
    }

    /// Appends a backend. Order is preserved but carries no meaning across
    /// backends.
    pub fn add_backend(&mut self, backend: BackendBox)
        requires
            old(self).wf(),
            (backend.0 matches Backend::Manuel(m) ==> m.wf()),
        ensures
            final(self).wf(),
            final(self).spec_backends() == old(self).spec_backends().push(backend.0),
            final(self).spec_concurrency() == old(self).spec_concurrency(),
    {
        let ghost b = backend.0;
        self.backends.push(backend);
        proof {
            assert(self.spec_backends() =~= old(self).spec_backends().push(b));
        }
    }

    /// The position of the first backend accepting `t`.
    fn find_accepting(&self, t: &TriggerDescriptor) -> (i: usize)
        requires
            self.spec_has_backend_for(*t),
        ensures
            i as int == spec_first_accepting(self.spec_backends(), *t),
            i < self.spec_backends().len(),
            spec_backend_accepts(self.spec_backends()[i as int], *t),
    {
        proof {
            lemma_first_accepting(self.spec_backends(), *t);
        }
        let ghost fi = spec_first_accepting(self.spec_backends(), *t);
        let mut i: usize = 0;
        while i < self.backends.len()
            invariant
                i <= self.backends.len(),
                fi == spec_first_accepting(self.spec_backends(), *t),
                0 <= fi < self.spec_backends().len(),
                spec_backend_accepts(self.spec_backends()[fi], *t),
                forall|j: int|
                    0 <= j < fi ==> !spec_backend_accepts(#[trigger] self.spec_backends()[j], *t),
                forall|j: int|
                    0 <= j < i ==> !spec_backend_accepts(#[trigger] self.spec_backends()[j], *t),
            decreases self.backends.len() - i,
        {
            if backend_accepts(&self.backends[i].0, t) {
                proof {
                    assert(spec_backend_accepts(self.spec_backends()[i as int], *t));
                    assert(i as int == fi) by {
                        if (i as int) < fi {
                        } else if fi < i as int {
                        }
                    }
                }
                return i;
            }
            i += 1;
        }
        proof {
            assert(!spec_backend_accepts(self.spec_backends()[fi], *t));
            assert(false);
        }
        0
    }

    /// Registers `task` under `trigger` on the first backend of the
    /// descriptor's kind. Fails, leaving everything unchanged, exactly when
    /// that backend refuses the registration (a duplicate manual name).
    pub fn add_trigger(&mut self, trigger: TriggerDescriptor, task: TaskId) -> (r: Result<
        (),
        Error,
    >)
        requires
            old(self).wf(),
            old(self).spec_has_backend_for(trigger),
        ensures
            final(self).wf(),
            spec_add_effect(*old(self), *final(self), trigger, task, r is Ok),
    {
        let ghost pre = *self;
        let i = self.find_accepting(&trigger);
        let boxed = self.backends.remove(i);
        let (r, replacement) = match (boxed.0, trigger) {
            (Backend::Manuel(mut m), TriggerDescriptor::Manuel(mt)) => {
                let r = m.add_trigger(mt, task);
                (r, Backend::Manuel(m))
            },
            (Backend::FsNotify(mut f), TriggerDescriptor::FsNotify(ft)) => {
                f.add_trigger(ft, task);
                (Ok(()), Backend::FsNotify(f))
            },
            (b, _) => {
                proof {
                    assert(false);
                }
                (Ok(()), b)
            },
        };
        let ghost nb = replacement;
        self.backends.insert(i, BackendBox(replacement));
        proof {
            assert(self.backends@ =~= pre.backends@.update(i as int, BackendBox(nb)));
            assert(self.spec_backends() =~= pre.spec_backends().update(i as int, nb));
        }
        r
    }

    /// Takes the engine apart for a run: its backends, in order, and the
    /// cap. The host starts one loop per backend and sizes its semaphore by
    /// the cap; the engine is consumed, backends live exactly one run.
    pub fn into_parts(self) -> (r: (Vec<BackendBox>, usize))
        ensures
            r.0@.len() == self.spec_backends().len(),
            forall|i: int| 0 <= i < r.0@.len() ==> #[trigger] r.0@[i].0 == self.spec_backends()[i],
            r.1 == self.spec_concurrency(),
    {
        let Engine { backends, concurrency } = self;
        (backends, concurrency)
    }

    /// A fresh dispatch-loop state for one run of this engine.
    pub fn dispatcher(&self) -> (d: Dispatcher)
        ensures
            d.wf(),
            d.spec_concurrency() == self.spec_concurrency(),
            d.spec_in_flight() == 0,
            !d.spec_aborted(),
    {
        Dispatcher::new(self.concurrency)
    }
}

impl Default for Engine {
    /// An engine with no backends and the default cap.
    fn default() -> (r: Engine)
        ensures
            r.wf(),
            r.spec_backends() == Seq::<Backend>::empty(),
            r.spec_concurrency() == DEFAULT_CONCURRENCY,
    {
        let r = Engine { backends: Vec::new(), concurrency: DEFAULT_CONCURRENCY };
        proof {
            assert(r.spec_backends() =~= Seq::<Backend>::empty());
        }
        r
    }
}

} // verus!
