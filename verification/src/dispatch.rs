//! The engine's dispatch loop, as a state machine: which workers may start,
//! when the loop must stop, and what the admission history looks like.
//!
//! The host's loop selects between the merged worker stream and the abort
//! signal, holds a counting semaphore of `concurrency` permits, and spawns
//! admitted workers; every decision it takes — stop, skip, admit, drop —
//! is made here. The ghost log records the history the decisions build, and
//! the laws at the bottom state what every reachable history satisfies.

use vstd::prelude::*;

use crate::backend::Worker;
use crate::error::Error;

verus! {

/// One step of dispatch history: a worker started, a worker completed, or
/// the abort signal observed.
pub enum DispatchEvent {
    Started(Worker),
    Completed,
    Aborted,
}

/// What one event does to the number of in-flight workers.
pub open spec fn spec_delta(e: DispatchEvent) -> int {
    match e {
        DispatchEvent::Started(_) => 1,
        DispatchEvent::Completed => -1,
        DispatchEvent::Aborted => 0,
    }
}

/// The number of in-flight workers after a history.
pub open spec fn spec_net(log: Seq<DispatchEvent>) -> int
    decreases log.len(),
{
    if log.len() == 0 {
        0
    } else {
        spec_net(log.drop_last()) + spec_delta(log.last())
    }
}

/// The workers of a history's `Started` events, in history order.
pub open spec fn spec_started(log: Seq<DispatchEvent>) -> Seq<Worker>
    decreases log.len(),
{
    if log.len() == 0 {
        Seq::empty()
    } else {
        let rest = spec_started(log.drop_last());
        match log.last() {
            DispatchEvent::Started(w) => rest.push(w),
            _ => rest,
        }
    }
}

/// Whether a history contains an abort observation.
pub open spec fn spec_has_abort(log: Seq<DispatchEvent>) -> bool {
    exists|i: int| 0 <= i < log.len() && log[i] is Aborted
}

/// No worker starts after an abort observation.
pub open spec fn spec_no_start_after_abort(log: Seq<DispatchEvent>) -> bool {
    forall|i: int, j: int|
        #![trigger log[i], log[j]]
        0 <= i < j < log.len() && log[i] is Aborted ==> !(log[j] is Started)
}

/// At every point of a history, between zero and `c` workers are in flight.
pub open spec fn spec_bounded(log: Seq<DispatchEvent>, c: int) -> bool {
    forall|n: int| 0 <= n <= log.len() ==> 0 <= #[trigger] spec_net(log.subrange(0, n)) <= c
}

proof fn lemma_net_push(log: Seq<DispatchEvent>, e: DispatchEvent)
    ensures
        spec_net(log.push(e)) == spec_net(log) + spec_delta(e),
{
    assert(log.push(e).drop_last() =~= log);
}

proof fn lemma_started_push(log: Seq<DispatchEvent>, e: DispatchEvent)
    ensures
        spec_started(log.push(e)) == (match e {
            DispatchEvent::Started(w) => spec_started(log).push(w),
            _ => spec_started(log),
        }),
{
    assert(log.push(e).drop_last() =~= log);
}

proof fn lemma_bounded_push(log: Seq<DispatchEvent>, e: DispatchEvent, c: int)
    requires
        spec_bounded(log, c),
        0 <= spec_net(log) + spec_delta(e) <= c,
    ensures
        spec_bounded(log.push(e), c),
{
    lemma_net_push(log, e);
    assert forall|n: int| 0 <= n <= log.push(e).len() implies 0 <= #[trigger] spec_net(
        log.push(e).subrange(0, n),
    ) <= c by {
        if n <= log.len() {
            assert(log.push(e).subrange(0, n) =~= log.subrange(0, n));
        } else {
            assert(log.push(e).subrange(0, n) =~= log.push(e));
        }
    }
}

/// The dispatch loop's state: the concurrency cap, the live counters, and
/// the ghost history.
pub struct Dispatcher {
    concurrency: usize,
    in_flight: usize,
    aborted: bool,
    log: Ghost<Seq<DispatchEvent>>,
}

/// What the loop does next with one item of the merged stream.
pub enum Decision {
    /// Leave the loop: the stream is exhausted or abort was observed.
    Stop,
    /// A backend error surfaced as a stream item: report it and keep going;
    /// it is never fatal to the engine.
    LogAndContinue(Error),
    /// A worker arrived: take a permit, re-check abort, then admit it.
    AcquireAndStart(Worker),
}

impl Dispatcher {
    pub closed spec fn spec_concurrency(self) -> usize {
        self.concurrency
    }

    pub closed spec fn spec_in_flight(self) -> usize {
        self.in_flight
    }

    pub closed spec fn spec_aborted(self) -> bool {
        self.aborted
    }

    /// The dispatch history so far.
    pub closed spec fn spec_log(self) -> Seq<DispatchEvent> {
        self.log@
    }

    /// The state is an honest account of its history: the in-flight counter
    /// is the history's net, the bound held at every point, the abort flag
    /// records whether abort was observed, and nothing started after it.
    pub open spec fn wf(self) -> bool {
        &&& self.spec_in_flight() == spec_net(self.spec_log())
        &&& self.spec_in_flight() <= self.spec_concurrency()
        &&& spec_bounded(self.spec_log(), self.spec_concurrency() as int)
        &&& self.spec_aborted() == spec_has_abort(self.spec_log())
        &&& spec_no_start_after_abort(self.spec_log())
    }

    /// A fresh loop state for a run under cap `concurrency`.
    pub fn new(concurrency: usize) -> (d: Dispatcher)
        ensures
            d.wf(),
            d.spec_concurrency() == concurrency,
            d.spec_in_flight() == 0,
            !d.spec_aborted(),
            d.spec_log() == Seq::<DispatchEvent>::empty(),
    {
        Dispatcher { concurrency, in_flight: 0, aborted: false, log: Ghost(Seq::empty()) }
    }

    /// The concurrency cap, for sizing the host's semaphore.
    pub fn concurrency(&self) -> (r: usize)
        ensures
            r == self.spec_concurrency(),
    {
        self.concurrency
    }

    /// How many workers are in flight.
    pub fn in_flight(&self) -> (r: usize)
        ensures
            r == self.spec_in_flight(),
    {
        self.in_flight
    }

    /// Whether abort has been observed.
    pub fn is_aborted(&self) -> (r: bool)
        ensures
            r == self.spec_aborted(),
    {
        self.aborted
    }

    /// Whether a worker could start right now: no abort observed and a
    /// permit free under the cap.
    pub fn can_admit(&self) -> (r: bool)
        ensures
            r == (!self.spec_aborted() && self.spec_in_flight() < self.spec_concurrency()),
    {
        !self.aborted && self.in_flight < self.concurrency
    }

    /// Records that the abort signal was observed (from the select's abort
    /// branch or a re-check). After this, no call ever starts a worker.
    pub fn observe_abort(&mut self)
        requires
            old(self).wf(),
        ensures
            final(self).wf(),
            final(self).spec_aborted(),
            final(self).spec_concurrency() == old(self).spec_concurrency(),
            final(self).spec_in_flight() == old(self).spec_in_flight(),
            final(self).spec_log() == old(self).spec_log().push(DispatchEvent::Aborted),
    {
        proof {
            lemma_net_push(self.log@, DispatchEvent::Aborted);
            lemma_bounded_push(self.log@, DispatchEvent::Aborted, self.concurrency as int);
        }
        self.aborted = true;
        self.log = Ghost(self.log@.push(DispatchEvent::Aborted));
        proof {
            assert(self.log@[self.log@.len() - 1] is Aborted);
        }
    }

    /// What to do with one item of the merged stream. The stream's end and
    /// an observed abort stop the loop; an error item is reported and
    /// skipped; a worker goes on to permit acquisition.
    pub fn decide(&self, item: Option<Result<Worker, Error>>) -> (d: Decision)
        ensures
            self.spec_aborted() ==> d is Stop,
            !self.spec_aborted() ==> match item {
                None => d is Stop,
                Some(Err(e)) => d matches Decision::LogAndContinue(e2) && e2 == e,
                Some(Ok(w)) => d matches Decision::AcquireAndStart(w2) && w2 == w,
            },
    {
        if self.aborted {
            return Decision::Stop;
        }
        match item {
            None => Decision::Stop,
            Some(Err(e)) => Decision::LogAndContinue(e),
            Some(Ok(w)) => Decision::AcquireAndStart(w),
        }
    }

    /// Admits `w` while a permit is held, unless abort has been observed —
    /// an aborted loop drops the worker and starts nothing. Returns the
    /// worker back for execution when it started.
    pub fn try_admit(&mut self, w: Worker) -> (r: Option<Worker>)
        requires
            old(self).wf(),
            old(self).spec_in_flight() < old(self).spec_concurrency(),
        ensures
            final(self).wf(),
            r is Some <==> !old(self).spec_aborted(),
            r matches Some(w2) ==> w2 == w && final(self).spec_log() == old(self).spec_log().push(
                DispatchEvent::Started(w),
            ) && final(self).spec_in_flight() == old(self).spec_in_flight() + 1
                && !final(self).spec_aborted()
                && final(self).spec_concurrency() == old(self).spec_concurrency(),
            r is None ==> *final(self) == *old(self),
    {
        if self.aborted {
            return None;
        }
        proof {
            lemma_net_push(self.log@, DispatchEvent::Started(w));
            lemma_bounded_push(self.log@, DispatchEvent::Started(w), self.concurrency as int);
            assert forall|i: int, j: int|
                #![trigger self.log@.push(DispatchEvent::Started(w))[i], self.log@.push(DispatchEvent::Started(w))[j]]
                0 <= i < j < self.log@.push(DispatchEvent::Started(w)).len() && self.log@.push(
                    DispatchEvent::Started(w),
                )[i] is Aborted implies !(self.log@.push(DispatchEvent::Started(w))[j] is Started) by {
                if i < self.log@.len() {
                    assert(self.log@[i] is Aborted);
                    assert(spec_has_abort(self.log@));
                }
            }
        }
        self.in_flight = self.in_flight + 1;
        self.log = Ghost(self.log@.push(DispatchEvent::Started(w)));
        Some(w)
    }

    /// Records that one spawned worker finished (the host's wait-group
    /// callback).
    pub fn complete(&mut self)
        requires
            old(self).wf(),
            old(self).spec_in_flight() > 0,
        ensures
            final(self).wf(),
            final(self).spec_in_flight() == old(self).spec_in_flight() - 1,
            final(self).spec_aborted() == old(self).spec_aborted(),
            final(self).spec_concurrency() == old(self).spec_concurrency(),
            final(self).spec_log() == old(self).spec_log().push(DispatchEvent::Completed),
    {
        proof {
            lemma_net_push(self.log@, DispatchEvent::Completed);
            lemma_bounded_push(self.log@, DispatchEvent::Completed, self.concurrency as int);
        }
        self.in_flight = self.in_flight - 1;
        self.log = Ghost(self.log@.push(DispatchEvent::Completed));
        proof {
            let l0 = old(self).spec_log();
            let l1 = self.log@;
            assert(spec_has_abort(l1) == spec_has_abort(l0)) by {
                if spec_has_abort(l0) {
                    let i = choose|i: int| 0 <= i < l0.len() && l0[i] is Aborted;
                    assert(l1[i] is Aborted);
                }
                if spec_has_abort(l1) {
                    let i = choose|i: int| 0 <= i < l1.len() && l1[i] is Aborted;
                    assert(i < l0.len() && l0[i] is Aborted);
                }
            }
            assert forall|i: int, j: int|
                #![trigger l1[i], l1[j]]
                0 <= i < j < l1.len() && l1[i] is Aborted implies !(l1[j] is Started) by {
                if j < l0.len() {
                    assert(l0[i] is Aborted && l1[j] == l0[j]);
                }
            }
        }
    }
}

/// Bounded concurrency: in every reachable dispatcher state, the number of
/// in-flight workers never exceeded the cap at any point of the history,
/// and equals the history's net right now.
pub proof fn lemma_bounded_concurrency(d: Dispatcher)
    requires
        d.wf(),
    ensures
        forall|n: int|
            0 <= n <= d.spec_log().len() ==> 0 <= #[trigger] spec_net(
                d.spec_log().subrange(0, n),
            ) <= d.spec_concurrency(),
        d.spec_in_flight() == spec_net(d.spec_log()) <= d.spec_concurrency(),
{
}

/// No admission after abort: in every reachable dispatcher state, no worker
/// was started after the abort observation; workers already in flight are
/// the only ones that remain.
pub proof fn lemma_no_start_after_abort(d: Dispatcher)
    requires
        d.wf(),
    ensures
        spec_no_start_after_abort(d.spec_log()),
        d.spec_aborted() == spec_has_abort(d.spec_log()),
{
}

/// Admission keeps arrival order: a run that starts the workers `ws` one
/// after another extends the started-order by exactly `ws`. Backends yield
/// their workers in order, so each backend's workers start in the order it
/// yielded them.
pub proof fn lemma_started_in_admission_order(log: Seq<DispatchEvent>, ws: Seq<Worker>)
    ensures
        spec_started(log + ws.map_values(|w: Worker| DispatchEvent::Started(w))) == spec_started(
            log,
        ) + ws,
    decreases ws.len(),
{
    let f = |w: Worker| DispatchEvent::Started(w);
    let m = ws.map_values(f);
    if ws.len() == 0 {
        assert(log + m =~= log);
        assert(spec_started(log) + ws =~= spec_started(log));
    } else {
        lemma_started_in_admission_order(log, ws.drop_last());
        assert(ws.drop_last().map_values(f) =~= m.drop_last());
        assert(log + m =~= (log + m.drop_last()).push(m.last()));
        lemma_started_push(log + m.drop_last(), m.last());
        assert(m.last() == f(ws.last()));
        assert(spec_started(log + m) == (spec_started(log) + ws.drop_last()).push(ws.last()));
        assert((spec_started(log) + ws.drop_last()).push(ws.last()) =~= spec_started(log) + ws);
    }
}

} // verus!
