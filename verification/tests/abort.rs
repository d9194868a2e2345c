use triggerman::abort_controller::AbortController;

#[test]
fn abort_starts_running() {
    let a = AbortController::default();
    assert!(!a.is_aborted());
    assert!(!a.wait_ready());
}

#[test]
fn abort_trip_is_observed() {
    let mut a = AbortController::default();
    a.trigger();
    assert!(a.is_aborted());
    assert!(a.wait_ready());
}

#[test]
fn abort_trip_is_idempotent() {
    let mut a = AbortController::default();
    a.trigger();
    a.trigger();
    assert!(a.is_aborted());
    assert!(a.wait_ready());
}
