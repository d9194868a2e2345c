use triggerman::backend::Worker;
use triggerman::dispatch::{Decision, Dispatcher};
use triggerman::error::Error;
use triggerman::value::Value;

fn worker(task: usize) -> Worker {
    Worker { task, payload: Value::Null }
}

#[test]
fn dispatcher_starts_idle() {
    let d = Dispatcher::new(2);
    assert_eq!(d.concurrency(), 2);
    assert_eq!(d.in_flight(), 0);
    assert!(!d.is_aborted());
    assert!(d.can_admit());
}

#[test]
fn concurrency_cap_holds_at_two() {
    // Cap 2, five workers: at most two in flight at any point, and all
    // five eventually start once earlier ones complete.
    let mut d = Dispatcher::new(2);
    let mut started: usize = 0;
    let mut pending: Vec<Worker> = (0..5).map(worker).collect();
    while !pending.is_empty() {
        while d.can_admit() && !pending.is_empty() {
            assert!(d.try_admit(pending.pop().unwrap()).is_some());
            started += 1;
            assert!(d.in_flight() <= 2);
        }
        assert!(d.in_flight() == 2 || pending.is_empty());
        if d.in_flight() > 0 {
            d.complete();
        }
    }
    assert_eq!(started, 5);
    while d.in_flight() > 0 {
        d.complete();
    }
    assert_eq!(d.in_flight(), 0);
}

#[test]
fn admission_blocked_at_cap() {
    let mut d = Dispatcher::new(1);
    assert!(d.try_admit(worker(0)).is_some());
    assert!(!d.can_admit());
    d.complete();
    assert!(d.can_admit());
}

#[test]
fn abort_drains_without_new_admissions() {
    // Two workers in flight when abort is observed: nothing new starts,
    // the two in flight run to completion.
    let mut d = Dispatcher::new(10);
    assert!(d.try_admit(worker(1)).is_some());
    assert!(d.try_admit(worker(2)).is_some());
    d.observe_abort();
    assert!(!d.can_admit());
    assert!(d.try_admit(worker(3)).is_none());
    assert_eq!(d.in_flight(), 2);
    d.complete();
    d.complete();
    assert_eq!(d.in_flight(), 0);
    assert!(d.is_aborted());
}

#[test]
fn decide_stops_on_stream_end() {
    let d = Dispatcher::new(4);
    assert!(matches!(d.decide(None), Decision::Stop));
}

#[test]
fn decide_skips_stream_errors() {
    let d = Dispatcher::new(4);
    let decision = d.decide(Some(Err(Error::new("watch failed".to_string()))));
    match decision {
        Decision::LogAndContinue(e) => assert_eq!(e.message().as_str(), "watch failed"),
        _ => panic!("a stream error must be skipped, not fatal"),
    }
}

#[test]
fn decide_forwards_workers() {
    let d = Dispatcher::new(4);
    match d.decide(Some(Ok(worker(9)))) {
        Decision::AcquireAndStart(w) => assert_eq!(w.task, 9),
        _ => panic!("a worker item must go on to admission"),
    }
}

#[test]
fn decide_stops_once_aborted() {
    let mut d = Dispatcher::new(4);
    d.observe_abort();
    assert!(matches!(d.decide(Some(Ok(worker(1)))), Decision::Stop));
    assert!(matches!(d.decide(Some(Err(Error::new("e".to_string())))), Decision::Stop));
    assert!(matches!(d.decide(None), Decision::Stop));
}
