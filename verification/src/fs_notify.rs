//! The filesystem backend: registered path sets matched against debounced
//! change events, one worker per matching registration.
//!
//! The backend owns the registrations and the matching rule. The host owns
//! the watcher: it arms one watch per registered `(path, recursive)` pair,
//! receives debounced event batches, and hands every event to
//! [`FsNotify::workers_for_event`], running the workers that come back.
//! Paths are canonicalised by the host before registration; a path that
//! cannot be canonicalised fails that registration at the host's edge.

use vstd::prelude::*;

use crate::backend::{TaskId, Worker};
use crate::path::{spec_path_starts_with, spec_path_string, CanonPath};
use crate::value::Value;

verus! {

/// The debounce window, in seconds: bursts of raw filesystem events closer
/// together than this arrive as one batch.
pub const DEBOUNCE_SECONDS: u64 = 2;

/// The descriptor a filesystem registration is made with: the canonical
/// paths to observe, and whether to observe everything below them too.
pub struct FsNotifyTrigger {
    pub paths: Vec<CanonPath>,
    pub recursive: bool,
}

/// One registration: the observed paths, the recursion flag, and the task
/// to invoke on a match.
pub struct FsNotifyTask {
    pub paths: Vec<CanonPath>,
    pub recursive: bool,
    pub work: TaskId,
}

/// One debounced filesystem event: the kind of change, and the canonical
/// paths it touched.
pub struct FsEvent {
    pub kind: String,
    pub paths: Vec<CanonPath>,
}

/// The filesystem backend's registrations, in registration order.
pub struct FsNotify {
    tasks: Vec<FsNotifyTask>,
}

/// The match rule: an event touches a registration when some event path
/// equals some registered path, or the registration is recursive and some
/// event path lies below some registered path.
pub open spec fn spec_should_trigger(
    search: Seq<Seq<Seq<char>>>,
    event: Seq<Seq<Seq<char>>>,
    recursive: bool,
) -> bool {
    ||| exists|i: int, j: int|
        #![trigger event[i], search[j]]
        0 <= i < event.len() && 0 <= j < search.len() && event[i] == search[j]
    ||| (recursive && exists|i: int, j: int|
        #![trigger event[i], search[j]]
        0 <= i < event.len() && 0 <= j < search.len() && spec_path_starts_with(event[i], search[j]))
}

/// Whether an event with paths `event_paths` fires a registration watching
/// `search_paths` with the given recursion flag.
pub fn should_trigger(
    search_paths: &Vec<CanonPath>,
    event_paths: &Vec<CanonPath>,
    recursive: bool,
) -> (r: bool)
    ensures
        r == spec_should_trigger(search_paths.deep_view(), event_paths.deep_view(), recursive),
{
    let ghost search = search_paths.deep_view();
    let ghost event = event_paths.deep_view();
    let mut i: usize = 0;
    while i < event_paths.len()
        invariant
            i <= event_paths.len(),
            search == search_paths.deep_view(),
            event == event_paths.deep_view(),
            forall|a: int, b: int|
                #![trigger event[a], search[b]]
                0 <= a < i && 0 <= b < search.len() ==> event[a] != search[b] && !(recursive
                    && spec_path_starts_with(event[a], search[b])),
        decreases event_paths.len() - i,
    {
        let mut j: usize = 0;
        while j < search_paths.len()
            invariant
                i < event_paths.len(),
                j <= search_paths.len(),
                search == search_paths.deep_view(),
                event == event_paths.deep_view(),
                forall|b: int|
                    #![trigger search[b]]
                    0 <= b < j ==> event[i as int] != search[b] && !(recursive
                        && spec_path_starts_with(event[i as int], search[b])),
            decreases search_paths.len() - j,
        {
            if event_paths[i].path_eq(&search_paths[j]) {
                assert(event[i as int] == search[j as int]);
                return true;
            }
            if recursive && event_paths[i].starts_with(&search_paths[j]) {
                assert(spec_path_starts_with(event[i as int], search[j as int]));
                return true;
            }
            j += 1;
        }
        i += 1;
    }
    false
}

/// The shape of the value handed to a task for a filesystem event: a keyed
/// mapping of the event kind and the textual forms of the touched paths.
pub open spec fn spec_is_event_payload(v: Value, kind: Seq<char>, paths: Seq<Seq<Seq<char>>>) -> bool {
    &&& v matches Value::Object(entries)
    &&& entries@.len() == 2
    &&& entries@[0].0@ == "kind"@
    &&& entries@[0].1 matches Value::Str(k) && k@ == kind
    &&& entries@[1].0@ == "paths"@
    &&& entries@[1].1 matches Value::List(items) && items@.len() == paths.len() && (forall|i: int|
        0 <= i < paths.len() ==> (#[trigger] items@[i] matches Value::Str(s) && s@
            == spec_path_string(paths[i])))
}

/// Builds the payload value for one filesystem event.
pub fn event_payload(event: &FsEvent) -> (r: Value)
    ensures
        spec_is_event_payload(r, event.kind@, event.paths.deep_view()),
{
    let ghost paths = event.paths.deep_view();
    let mut items: Vec<Value> = Vec::new();
    let mut i: usize = 0;
    while i < event.paths.len()
        invariant
            i <= event.paths.len(),
            paths == event.paths.deep_view(),
            items@.len() == i,
            forall|j: int|
                0 <= j < i ==> (#[trigger] items@[j] matches Value::Str(s) && s@
                    == spec_path_string(paths[j])),
        decreases event.paths.len() - i,
    {
        items.push(Value::Str(event.paths[i].path_string()));
        i += 1;
    }
    let mut entries: Vec<(String, Value)> = Vec::new();
    entries.push(("kind".to_owned(), Value::Str(event.kind.clone())));
    entries.push(("paths".to_owned(), Value::List(items)));
    Value::Object(entries)
}

/// The registrations (by position) that an event with paths `event` fires,
/// in registration order.
pub open spec fn spec_matching_indices(
    tasks: Seq<FsNotifyTask>,
    event: Seq<Seq<Seq<char>>>,
) -> Seq<int>
    decreases tasks.len(),
{
    if tasks.len() == 0 {
        Seq::empty()
    } else {
        let rest = spec_matching_indices(tasks.drop_last(), event);
        if spec_should_trigger(tasks.last().paths.deep_view(), event, tasks.last().recursive) {
            rest.push(tasks.len() - 1)
        } else {
            rest
        }
    }
}

impl View for FsNotify {
    type V = Seq<FsNotifyTask>;

    closed spec fn view(&self) -> Seq<FsNotifyTask> {
        self.tasks@
    }
}

impl Default for FsNotify {
    /// A fresh backend with no registrations.
    fn default() -> (r: FsNotify)
        ensures
            r@ == Seq::<FsNotifyTask>::empty(),
    {
        let r = FsNotify { tasks: Vec::new() };
        proof {
            assert(r@ =~= Seq::<FsNotifyTask>::empty());
        }
        r
    }
}

impl FsNotify {
    /// Registers `task` for the (already canonical) paths of `trigger`.
    /// Registration on canonical paths never fails.
    pub fn add_trigger(&mut self, trigger: FsNotifyTrigger, task: TaskId)
        ensures
            final(self)@ == old(self)@.push(
                (FsNotifyTask { paths: trigger.paths, recursive: trigger.recursive, work: task }),
            ),
    {
        self.tasks.push(FsNotifyTask { paths: trigger.paths, recursive: trigger.recursive, work: task });
    }

    /// Drops every registration.
    pub fn clear(&mut self)
        ensures
            final(self)@ == Seq::<FsNotifyTask>::empty(),
    {
        self.tasks.clear();
        proof {
            assert(self@ =~= Seq::<FsNotifyTask>::empty());
        }
    }

    /// The registrations, in registration order — the host arms its watcher
    /// with every registration's `(path, recursive)` pairs.
    pub fn entries(&self) -> (r: &Vec<FsNotifyTask>)
        ensures
            r@ == self@,
    {
        &self.tasks
    }

    /// The workers one event yields: one per registration the event fires,
    /// in registration order, each carrying the event's payload value.
    pub fn workers_for_event(&self, event: &FsEvent) -> (r: Vec<Worker>)
        ensures
            ({
                let ids = spec_matching_indices(self@, event.paths.deep_view());
                &&& r@.len() == ids.len()
                &&& forall|k: int|
                    0 <= k < ids.len() ==> r@[k].task == self@[ids[k]].work
                        && spec_is_event_payload(
                        r@[k].payload,
                        event.kind@,
                        event.paths.deep_view(),
                    )
            }),
    {
        let ghost ep = event.paths.deep_view();
        let mut r: Vec<Worker> = Vec::new();
        let mut i: usize = 0;
        while i < self.tasks.len()
            invariant
                i <= self.tasks.len(),
                ep == event.paths.deep_view(),
                ({
                    let ids = spec_matching_indices(self@.subrange(0, i as int), ep);
                    &&& r@.len() == ids.len()
                    &&& forall|k: int|
                        0 <= k < ids.len() ==> 0 <= ids[k] < i && r@[k].task == self@[ids[k]].work
                            && spec_is_event_payload(r@[k].payload, event.kind@, ep)
                }),
            decreases self.tasks.len() - i,
        {
            proof {
                assert(self@.subrange(0, i as int + 1).drop_last() =~= self@.subrange(0, i as int));
                assert(self@.subrange(0, i as int + 1).last() == self@[i as int]);
            }
            if should_trigger(&self.tasks[i].paths, &event.paths, self.tasks[i].recursive) {
                r.push(Worker { task: self.tasks[i].work, payload: event_payload(event) });
            }
            i += 1;
        }
        proof {
            assert(self@.subrange(0, self@.len() as int) =~= self@);
        }
        r
    }
}

/// The filesystem match rule, per registration: an event fires exactly the
/// registrations it matches, each exactly once, in registration order.
pub proof fn lemma_fs_match_rule(tasks: Seq<FsNotifyTask>, event: Seq<Seq<Seq<char>>>)
    ensures
        forall|i: int|
            #![trigger tasks[i]]
            0 <= i < tasks.len() ==> (spec_matching_indices(tasks, event).contains(i)
                <==> spec_should_trigger(tasks[i].paths.deep_view(), event, tasks[i].recursive)),
        forall|k: int, l: int|
            0 <= k < l < spec_matching_indices(tasks, event).len() ==> spec_matching_indices(
                tasks,
                event,
            )[k] < spec_matching_indices(tasks, event)[l],
        forall|k: int|
            0 <= k < spec_matching_indices(tasks, event).len() ==> 0 <= #[trigger] spec_matching_indices(
                tasks,
                event,
            )[k] < tasks.len(),
    decreases tasks.len(),
{
    if tasks.len() > 0 {
        lemma_fs_match_rule(tasks.drop_last(), event);
        let rest = spec_matching_indices(tasks.drop_last(), event);
        let ids = spec_matching_indices(tasks, event);
        assert forall|i: int| 0 <= i < tasks.len() - 1 implies tasks.drop_last()[i] == tasks[i] by {}
        assert forall|i: int| #![trigger tasks[i]] 0 <= i < tasks.len() implies (ids.contains(i)
            <==> spec_should_trigger(tasks[i].paths.deep_view(), event, tasks[i].recursive)) by {
            if i < tasks.len() - 1 {
                if rest.contains(i) {
                    let k = choose|k: int| 0 <= k < rest.len() && rest[k] == i;
                    assert(ids[k] == i);
                    assert(ids.contains(i));
                }
                if ids.contains(i) {
                    let k = choose|k: int| 0 <= k < ids.len() && ids[k] == i;
                    if k < rest.len() {
                        assert(rest.contains(i));
                    }
                }
            } else {
                if spec_should_trigger(tasks[i].paths.deep_view(), event, tasks[i].recursive) {
                    assert(ids[ids.len() - 1] == i);
                    assert(ids.contains(i));
                }
                if ids.contains(i) {
                    let k = choose|k: int| 0 <= k < ids.len() && ids[k] == i;
                    if k < rest.len() {
                        assert(rest[k] == i && rest[k] < tasks.len() - 1);
                    }
                }
            }
        }
    }
}

} // verus!
