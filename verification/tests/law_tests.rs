use mcmanager::config::{Config, ServerConfig};
use mcmanager::log::BoundedLog;
use mcmanager::sync::{plan_sync, SyncStep};
use mcmanager::text::split_lines;
use mcmanager::worker::{next_phase, WorkerEvent, WorkerPhase};
use std::collections::BTreeSet;

fn server(id: &str) -> ServerConfig {
    ServerConfig { id: id.into(), name: id.into(), url: format!("ws://{}", id), password: String::new() }
}

#[test]
fn applying_a_plan_leaves_exactly_the_configured_ids() {
    let running: Vec<String> = ["a", "b", "c", "d"].iter().map(|s| s.to_string()).collect();
    let config = Config { servers: vec![server("c"), server("e"), server("a"), server("e"), server("f")] };
    let plan = plan_sync(&running, &config);
    let mut after: BTreeSet<String> = running.iter().cloned().collect();
    let mut started = Vec::new();
    for step in &plan.steps {
        match step {
            SyncStep::Start(c) => {
                assert!(after.insert(c.id.clone()), "started twice: {}", c.id);
                started.push(c.id.clone());
            }
            SyncStep::Reconfigure(c) => assert!(after.contains(&c.id)),
        }
    }
    for id in &plan.removals {
        after.remove(id);
    }
    let configured: BTreeSet<String> = config.servers.iter().map(|s| s.id.clone()).collect();
    assert_eq!(after, configured);
    assert_eq!(started, vec!["e".to_string(), "f".to_string()]);
}

#[test]
fn log_holds_the_most_recent_lines_in_order() {
    let mut log = BoundedLog::new(4);
    let all: Vec<String> = (0..11).map(|i| format!("l{}", i)).collect();
    for line in &all {
        log.push(line.clone());
    }
    assert_eq!(log.snapshot(), all[7..].to_vec());
}

#[test]
fn pushing_texts_one_by_one_is_pushing_their_lines() {
    let mut a = BoundedLog::new(3);
    a.push_text("x\ny");
    a.push_text("z\nw");
    let mut b = BoundedLog::new(3);
    b.push_text("x\ny\nz\nw");
    assert_eq!(a.snapshot(), b.snapshot());
}

#[test]
fn final_line_ending_adds_no_line() {
    for s in ["a", "a\nb", "a\r", "x\r\ny"] {
        assert_eq!(split_lines(&format!("{}\r\n", s)), split_lines(s));
        if !s.ends_with('\r') {
            assert_eq!(split_lines(&format!("{}\n", s)), split_lines(s));
        }
    }
}

#[test]
fn worker_stops_only_when_removed() {
    let events = [
        WorkerEvent::SessionEnded,
        WorkerEvent::RetryDue,
        WorkerEvent::ConfigChanged,
        WorkerEvent::SessionEnded,
        WorkerEvent::ConfigChanged,
    ];
    let mut phase = WorkerPhase::Connecting;
    for e in events {
        phase = next_phase(phase, e);
        assert_ne!(phase, WorkerPhase::Stopped);
    }
    phase = next_phase(phase, WorkerEvent::ConfigRemoved);
    assert_eq!(phase, WorkerPhase::Stopped);
    assert_eq!(next_phase(phase, WorkerEvent::ConfigChanged), WorkerPhase::Stopped);
}
