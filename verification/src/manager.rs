//! The manager: the task directory's root, and the assembly of an engine
//! from the task configurations found under it.
//!
//! The host enumerates the root's child directories, reads and parses each
//! one's configuration file, builds one script sandbox per task, and then
//! registers every surviving task here. A configuration that fails —
//! unreadable, malformed, an unregistrable trigger — is fatal for that task
//! only: the host logs it, the engine stays as it was, and assembly goes
//! on with the next task.

use vstd::prelude::*;

use crate::backend::{Backend, BackendBox, TaskId};
use crate::config::TaskConfig;
use crate::engine::{
    spec_add_effect, spec_first_accepting, Engine, TriggerDescriptor, DEFAULT_CONCURRENCY,
};
use crate::error::Error;
use crate::fs_notify::{FsNotify, FsNotifyTask};
use crate::manuel::Manuel;

verus! {

/// The manager: the canonical root of the tasks directory.
pub struct Manager {
    path: String,
}

impl Manager {
    /// The root directory the manager scans.
    pub closed spec fn spec_path(self) -> Seq<char> {
        self.path@
    }

    /// A manager over the given root.
    pub fn open(path: String) -> (m: Manager)
        ensures
            m.spec_path() == path@,
    {
        Manager { path }
    }

    /// The root directory, for the host's directory scan.
    pub fn path(&self) -> (r: &String)
        ensures
            r@ == self.spec_path(),
    {
        &self.path
    }

    /// The engine a run starts from: one manual backend and one filesystem
    /// backend, both empty, under the default cap — so every descriptor
    /// kind has a backend to land on.
    pub fn new_engine() -> (e: Engine)
        ensures
            e.wf(),
            e.spec_concurrency() == DEFAULT_CONCURRENCY,
            e.spec_backends().len() == 2,
            e.spec_backends()[0] matches Backend::Manuel(m) && m@ == Seq::<
                (Seq<char>, TaskId),
            >::empty(),
            e.spec_backends()[1] matches Backend::FsNotify(f) && f@ == Seq::<
                FsNotifyTask,
            >::empty(),
            forall|t: TriggerDescriptor| e.spec_has_backend_for(t),
    {
        let mut e = Engine::default();
        e.add_backend(BackendBox(Backend::Manuel(Manuel::new())));
        e.add_backend(BackendBox(Backend::FsNotify(FsNotify::default())));
        proof {
            let bs = e.spec_backends();
            assert forall|t: TriggerDescriptor| e.spec_has_backend_for(t) by {
                match t {
                    TriggerDescriptor::Manuel(_) => {
                        assert(spec_first_accepting(bs, t) == 0);
                    },
                    TriggerDescriptor::FsNotify(_) => {
                        assert(bs.drop_first()[0] == bs[1]);
                        assert(spec_first_accepting(bs.drop_first(), t) == 0);
                        assert(spec_first_accepting(bs, t) == 1);
                    },
                }
            }
        }
        e
    }

    /// Registers one task's configuration on the engine, under the task
    /// handle the host made for its sandbox. Fails, leaving the engine
    /// unchanged, exactly when the configuration's trigger is refused (a
    /// duplicate manual name); the host logs that and skips the task.
    pub fn register_task(engine: &mut Engine, config: TaskConfig, task: TaskId) -> (r: Result<
        (),
        Error,
    >)
        requires
            old(engine).wf(),
            old(engine).spec_has_backend_for(config.trigger.spec_descriptor()),
        ensures
            final(engine).wf(),
            spec_add_effect(
                *old(engine),
                *final(engine),
                config.trigger.spec_descriptor(),
                task,
                r is Ok,
            ),
    {
        let TaskConfig { trigger, work_dir: _, task: _ } = config;
        trigger.apply(engine, task)
    }
}

} // verus!
