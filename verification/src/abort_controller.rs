//! The one-shot cancellation signal shared by the engine, its backends and
//! its workers.
//!
//! The controller has two observable states, running and aborted, and a
//! single transition: `trigger` moves it to aborted and nothing moves it
//! back. The host process is responsible for sharing one controller between
//! its loops and for waking asynchronous waiters on the transition; every
//! decision the library makes reads the state modelled here.

use vstd::prelude::*;

verus! {

/// A one-shot, monotonic cancellation signal.
pub struct AbortController {
    aborted: bool,
}

impl AbortController {
    /// Whether the signal has been tripped.
    pub closed spec fn spec_is_aborted(self) -> bool {
        self.aborted
    }

    /// Trips the signal. Idempotent: after the first call every later call
    /// leaves the state aborted.
    pub fn trigger(&mut self)
        ensures
            final(self).spec_is_aborted(),
    {
        self.aborted = true;
    }

    /// Samples the signal.
    pub fn is_aborted(&self) -> (r: bool)
        ensures
            r == self.spec_is_aborted(),
    {
        self.aborted
    }

    /// Whether a waiter arriving now would resolve without suspending.
    /// A `wait` on an already-aborted controller completes immediately; the
    /// host's waiters otherwise suspend until the transition.
    pub fn wait_ready(&self) -> (r: bool)
        ensures
            r == self.spec_is_aborted(),
    {
        self.aborted
    }
}

impl Default for AbortController {
    /// A fresh controller, still running.
    fn default() -> (r: AbortController)
        ensures
            !r.spec_is_aborted(),
    {
        AbortController { aborted: false }
    }
}

/// An operation applied to the controller's state: `Trigger` trips it,
/// `Observe` stands for any read (`is_aborted`, a `wait` subscription).
pub enum AbortOp {
    Trigger,
    Observe,
}

/// The state after one operation.
pub open spec fn abort_step(state: bool, op: AbortOp) -> bool {
    match op {
        AbortOp::Trigger => true,
        AbortOp::Observe => state,
    }
}

/// The state after a sequence of operations, applied left to right.
pub open spec fn abort_run(state: bool, ops: Seq<AbortOp>) -> bool
    decreases ops.len(),
{
    if ops.len() == 0 {
        state
    } else {
        abort_run(abort_step(state, ops[0]), ops.subrange(1, ops.len() as int))
    }
}

/// Abort monotonicity: once the controller is aborted, it stays aborted
/// under every further sequence of operations, so every later sample reads
/// true and every later waiter resolves at once.
pub proof fn lemma_abort_monotonic(state: bool, ops: Seq<AbortOp>)
    requires
        state,
    ensures
        abort_run(state, ops),
    decreases ops.len(),
{
    if ops.len() > 0 {
        lemma_abort_monotonic(abort_step(state, ops[0]), ops.subrange(1, ops.len() as int));
    }
}

} // verus!
