use vstd::prelude::*;

verus! {

/// Seconds a worker waits after a session ends before it reconnects.
pub const RETRY_DELAY_SECS: u64 = 5;

/// Where a server's worker stands.
#[derive(Debug, Clone, Copy, PartialEq, Eq, Structural)]
pub enum WorkerPhase {
    /// Connecting to the server, or connected to it.
    Connecting,
    /// Waiting before the next attempt.
    Waiting,
    /// Gone: its server was removed from the configuration.
    Stopped,
}

/// What a worker learns while it connects or waits.
#[derive(Debug, Clone, Copy, PartialEq, Eq, Structural)]
pub enum WorkerEvent {
    /// The session ended, well or badly.
    SessionEnded,
    /// The server's configuration changed.
    ConfigChanged,
    /// The server was removed from the configuration.
    ConfigRemoved,
    /// The retry delay passed.
    RetryDue,
}

/// The worker's next phase: a session that ends leads to a wait, a wait that
/// passes or a configuration change leads to a new connection (at once, also
/// in the middle of a session), and a removed configuration stops the worker
/// for good. An event that cannot happen in a phase leaves it as it is.
pub open spec fn next_phase_spec(phase: WorkerPhase, event: WorkerEvent) -> WorkerPhase {
    match phase {
        WorkerPhase::Stopped => WorkerPhase::Stopped,
        WorkerPhase::Connecting => match event {
            WorkerEvent::SessionEnded => WorkerPhase::Waiting,
            WorkerEvent::ConfigChanged => WorkerPhase::Connecting,
            WorkerEvent::ConfigRemoved => WorkerPhase::Stopped,
            WorkerEvent::RetryDue => WorkerPhase::Connecting,
        },
        WorkerPhase::Waiting => match event {
            WorkerEvent::SessionEnded => WorkerPhase::Waiting,
            WorkerEvent::ConfigChanged => WorkerPhase::Connecting,
            WorkerEvent::ConfigRemoved => WorkerPhase::Stopped,
            WorkerEvent::RetryDue => WorkerPhase::Connecting,
        },
    }
}

/// The phase of a freshly started worker.
pub fn initial_phase() -> (r: WorkerPhase)
    ensures
        r == WorkerPhase::Connecting,
{
    WorkerPhase::Connecting
}

/// The worker's next phase after an event (see `next_phase_spec`).
pub fn next_phase(phase: WorkerPhase, event: WorkerEvent) -> (r: WorkerPhase)
    ensures
        r == next_phase_spec(phase, event),
{
    match phase {
        WorkerPhase::Stopped => WorkerPhase::Stopped,
        WorkerPhase::Connecting => match event {
            WorkerEvent::SessionEnded => WorkerPhase::Waiting,
            WorkerEvent::ConfigChanged => WorkerPhase::Connecting,
            WorkerEvent::ConfigRemoved => WorkerPhase::Stopped,
            WorkerEvent::RetryDue => WorkerPhase::Connecting,
        },
        WorkerPhase::Waiting => match event {
            WorkerEvent::SessionEnded => WorkerPhase::Waiting,
            WorkerEvent::ConfigChanged => WorkerPhase::Connecting,
            WorkerEvent::ConfigRemoved => WorkerPhase::Stopped,
            WorkerEvent::RetryDue => WorkerPhase::Connecting,
        },
    }
}

/// The phase after a run of events.
pub open spec fn run_phases(phase: WorkerPhase, events: Seq<WorkerEvent>) -> WorkerPhase
    decreases events.len(),
{
    if events.len() == 0 {
        phase
    } else {
        run_phases(next_phase_spec(phase, events[0]), events.drop_first())
    }
}

/// Law: a worker stops exactly when its configuration is removed; until
/// then, whatever happens, it keeps connecting or waiting to reconnect, and
/// once stopped it never comes back.
pub proof fn lemma_stops_only_when_removed(phase: WorkerPhase, events: Seq<WorkerEvent>)
    ensures
        phase == WorkerPhase::Stopped ==> run_phases(phase, events) == WorkerPhase::Stopped,
        phase != WorkerPhase::Stopped ==> (run_phases(phase, events) == WorkerPhase::Stopped
            <==> events.contains(WorkerEvent::ConfigRemoved)),
    decreases events.len(),
{
    if events.len() > 0 {
        let next = next_phase_spec(phase, events[0]);
        lemma_stops_only_when_removed(next, events.drop_first());
        if phase != WorkerPhase::Stopped {
            if events[0] == WorkerEvent::ConfigRemoved {
                assert(events.contains(WorkerEvent::ConfigRemoved));
                lemma_stops_only_when_removed(WorkerPhase::Stopped, events.drop_first());
            } else {
                assert(events.contains(WorkerEvent::ConfigRemoved) <==> events.drop_first().contains(
                    WorkerEvent::ConfigRemoved,
                )) by {
                    if events.contains(WorkerEvent::ConfigRemoved) {
                        let i = choose|i: int|
                            0 <= i < events.len() && events[i] == WorkerEvent::ConfigRemoved;
                        assert(events.drop_first()[i - 1] == WorkerEvent::ConfigRemoved);
                    }
                    if events.drop_first().contains(WorkerEvent::ConfigRemoved) {
                        let i = choose|i: int|
                            0 <= i < events.drop_first().len() && events.drop_first()[i]
                                == WorkerEvent::ConfigRemoved;
                        assert(events[i + 1] == WorkerEvent::ConfigRemoved);
                    }
                }
            }
        }
    }
}

/// Law: a worker that is not stopped is connecting again after a changed
/// configuration or after its retry delay, whichever comes first.
pub proof fn lemma_reconnects(phase: WorkerPhase)
    requires
        phase != WorkerPhase::Stopped,
    ensures
        next_phase_spec(phase, WorkerEvent::ConfigChanged) == WorkerPhase::Connecting,
        next_phase_spec(phase, WorkerEvent::RetryDue) == WorkerPhase::Connecting,
        next_phase_spec(WorkerPhase::Connecting, WorkerEvent::SessionEnded)
            == WorkerPhase::Waiting,
{
}

} // verus!
