//! Task configurations: the tagged trigger descriptions read from a task's
//! configuration file, and their application to an engine.
//!
//! The host reads and deserialises each task directory's configuration and
//! canonicalises the paths a filesystem trigger names; what arrives here is
//! the plain content. Applying a configuration registers the task on the
//! engine under the descriptor the configuration describes.

use vstd::prelude::*;

use crate::backend::TaskId;
use crate::engine::{lemma_first_accepting, spec_add_effect, Engine, TriggerDescriptor};
use crate::error::Error;
use crate::fs_notify::FsNotifyTrigger;
use crate::manuel::ManuelTrigger;
use crate::path::CanonPath;

verus! {

/// A filesystem trigger's configuration: the canonical paths to watch and
/// whether to watch everything below them.
pub struct NotifyConfig {
    pub paths: Vec<CanonPath>,
    pub recursive: bool,
}

/// A manual trigger's configuration: the name that fires it.
pub struct ManuelConfig {
    pub name: String,
}

/// The tagged union of trigger configurations, one variant per tag the
/// configuration file may carry.
pub enum TriggerConfig {
    Notify(NotifyConfig),
    Manuel(ManuelConfig),
}

/// One task's configuration: its trigger, an optional working directory,
/// and the path of its script module relative to the task's directory.
pub struct TaskConfig {
    pub trigger: TriggerConfig,
    pub work_dir: Option<String>,
    pub task: String,
}

impl NotifyConfig {
    /// The descriptor this configuration registers.
    pub open spec fn spec_descriptor(self) -> TriggerDescriptor {
        TriggerDescriptor::FsNotify(
            FsNotifyTrigger { paths: self.paths, recursive: self.recursive },
        )
    }

    /// Registers `task` on the engine's filesystem backend. Registration
    /// on canonical paths never fails.
    pub fn apply(self, engine: &mut Engine, task: TaskId) -> (r: Result<(), Error>)
        requires
            old(engine).wf(),
            old(engine).spec_has_backend_for(self.spec_descriptor()),
        ensures
            final(engine).wf(),
            spec_add_effect(*old(engine), *final(engine), self.spec_descriptor(), task, r is Ok),
            r is Ok,
    {
        let ghost desc = self.spec_descriptor();
        let r = engine.add_trigger(
            TriggerDescriptor::FsNotify(
                FsNotifyTrigger { paths: self.paths, recursive: self.recursive },
            ),
            task,
        );
        proof {
            lemma_first_accepting(old(engine).spec_backends(), desc);
        }
        r
    }
}

impl ManuelConfig {
    /// The descriptor this configuration registers.
    pub open spec fn spec_descriptor(self) -> TriggerDescriptor {
        TriggerDescriptor::Manuel((ManuelTrigger { name: self.name }))
    }

    /// Registers `task` on the engine's manual backend. Fails exactly when
    /// the name is already registered there.
    pub fn apply(self, engine: &mut Engine, task: TaskId) -> (r: Result<(), Error>)
        requires
            old(engine).wf(),
            old(engine).spec_has_backend_for(self.spec_descriptor()),
        ensures
            final(engine).wf(),
            spec_add_effect(*old(engine), *final(engine), self.spec_descriptor(), task, r is Ok),
    {
        engine.add_trigger(TriggerDescriptor::Manuel((ManuelTrigger { name: self.name })), task)
    }
}

impl TriggerConfig {
    /// The descriptor this configuration registers.
    pub open spec fn spec_descriptor(self) -> TriggerDescriptor {
        match self {
            TriggerConfig::Notify(c) => c.spec_descriptor(),
            TriggerConfig::Manuel(c) => c.spec_descriptor(),
        }
    }

    /// Registers `task` on the engine under this configuration's
    /// descriptor.
    pub fn apply(self, engine: &mut Engine, task: TaskId) -> (r: Result<(), Error>)
        requires
            old(engine).wf(),
            old(engine).spec_has_backend_for(self.spec_descriptor()),
        ensures
            final(engine).wf(),
            spec_add_effect(*old(engine), *final(engine), self.spec_descriptor(), task, r is Ok),
    {
        match self {
            TriggerConfig::Notify(c) => c.apply(engine, task),
            TriggerConfig::Manuel(c) => c.apply(engine, task),
        }
    }
}

} // verus!
