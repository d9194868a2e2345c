//! A trigger engine: heterogeneous event backends (manual pokes, filesystem
//! changes) multiplexed into one dispatch loop with bounded concurrency and
//! graceful, one-shot cancellation, plus the manager that wires task
//! configurations into the engine.
//!
//! The library holds the engine's decision logic: registration, event
//! matching, worker construction, admission under the concurrency cap, and
//! the cancellation state machine. The host process supplies the event
//! sources (channels, filesystem watchers, a scripting runtime) and drives
//! these decisions from its own loop.

pub mod abort_controller;
pub mod backend;
pub mod config;
pub mod dispatch;
pub mod engine;
pub mod error;
pub mod fs_notify;
pub mod manager;
pub mod manuel;
pub mod path;
pub mod value;

pub use abort_controller::AbortController;
pub use backend::{Backend, BackendBox, TaskId, Worker};
pub use config::{ManuelConfig, NotifyConfig, TaskConfig, TriggerConfig};
pub use dispatch::{Decision, Dispatcher};
pub use engine::{Engine, TriggerDescriptor};
pub use error::Error;
pub use manager::Manager;
pub use path::CanonPath;
pub use value::Value;
