//! The pieces shared by every backend: the task handle, the one-shot worker,
//! and the erased form of a backend as the engine owns it.
//!
//! A task is a long-lived handler living with the host (a script sandbox, a
//! recording closure); the library refers to it by an opaque handle. A
//! worker is one unit of work: the handle of the task to invoke and the
//! event payload to invoke it with. A worker is produced by a backend for
//! one event and consumed by one invocation.

use vstd::prelude::*;

use crate::fs_notify::FsNotify;
use crate::manuel::Manuel;
use crate::value::Value;

verus! {

/// An opaque handle to a task handler held by the host.
pub type TaskId = usize;

/// One unit of work: invoke the task `task` once with `payload`.
pub struct Worker {
    pub task: TaskId,
    pub payload: Value,
}

/// A backend as the engine can own it, one variant per backend kind.
pub enum Backend {
    Manuel(Manuel),
    FsNotify(FsNotify),
}

/// A backend boxed for the engine's heterogeneous collection.
pub struct BackendBox(pub Backend);

} // verus!
