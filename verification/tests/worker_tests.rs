use mcmanager::worker::{initial_phase, next_phase, WorkerEvent, WorkerPhase, RETRY_DELAY_SECS};

#[test]
fn worker_cycle() {
    let p = initial_phase();
    assert_eq!(p, WorkerPhase::Connecting);
    let p = next_phase(p, WorkerEvent::SessionEnded);
    assert_eq!(p, WorkerPhase::Waiting);
    assert_eq!(next_phase(p, WorkerEvent::RetryDue), WorkerPhase::Connecting);
    assert_eq!(next_phase(p, WorkerEvent::ConfigChanged), WorkerPhase::Connecting);
    assert_eq!(next_phase(p, WorkerEvent::ConfigRemoved), WorkerPhase::Stopped);
    assert_eq!(RETRY_DELAY_SECS, 5);
}

#[test]
fn config_change_reconnects_at_once() {
    assert_eq!(next_phase(WorkerPhase::Connecting, WorkerEvent::ConfigChanged), WorkerPhase::Connecting);
    assert_eq!(next_phase(WorkerPhase::Connecting, WorkerEvent::ConfigRemoved), WorkerPhase::Stopped);
}

#[test]
fn stopped_is_final() {
    for e in [WorkerEvent::SessionEnded, WorkerEvent::ConfigChanged, WorkerEvent::ConfigRemoved, WorkerEvent::RetryDue] {
        assert_eq!(next_phase(WorkerPhase::Stopped, e), WorkerPhase::Stopped);
    }
}
