use deet::inferior::Inferior;
use deet::status::{Status, TraceError, WaitEvent};

#[test]
fn only_an_initial_stop_is_adopted() {
    assert!(Inferior::accepts_initial(&Ok(Status::Stopped(5, 0x1000))));
    assert!(!Inferior::accepts_initial(&Ok(Status::Exited(0))));
    assert!(!Inferior::accepts_initial(&Ok(Status::Signaled(9))));
    assert!(!Inferior::accepts_initial(&Err(TraceError::Unexpected)));
    assert!(!Inferior::accepts_initial(&Err(TraceError::Kernel(10))));
}

#[test]
fn adopting_a_pid_that_is_no_child_fails() {
    // nothing with this pid is a child of the test process, so the wait
    // for its initial stop fails and no inferior is produced
    assert!(Inferior::from_spawned(99_999_999).is_none());
}

#[test]
fn wait_events_map_to_statuses() {
    assert_eq!(Status::from_event(WaitEvent::Exited(2), 0), Some(Status::Exited(2)));
    assert_eq!(Status::from_event(WaitEvent::Signaled(9), 0), Some(Status::Signaled(9)));
    assert_eq!(
        Status::from_event(WaitEvent::Stopped(5), 0x1000),
        Some(Status::Stopped(5, 0x1000))
    );
    assert_eq!(Status::from_event(WaitEvent::Other, 0), None);
}
