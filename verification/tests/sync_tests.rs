use mcmanager::config::{Config, ServerConfig};
use mcmanager::sync::{contains_text, plan_sync, SyncStep};

fn server(id: &str, url: &str) -> ServerConfig {
    ServerConfig { id: id.into(), name: id.to_uppercase(), url: url.into(), password: "pw".into() }
}

fn ids(v: &[&str]) -> Vec<String> {
    v.iter().map(|s| s.to_string()).collect()
}

#[test]
fn plan_reconfigures_starts_and_removes() {
    let running = ids(&["a", "b", "c"]);
    let config = Config { servers: vec![server("b", "ws://b2"), server("d", "ws://d"), server("a", "ws://a")] };
    let plan = plan_sync(&running, &config);
    assert_eq!(plan.steps.len(), 3);
    assert!(matches!(&plan.steps[0], SyncStep::Reconfigure(c) if c.id == "b" && c.url == "ws://b2"));
    assert!(matches!(&plan.steps[1], SyncStep::Start(c) if c.id == "d"));
    assert!(matches!(&plan.steps[2], SyncStep::Reconfigure(c) if c.id == "a"));
    assert_eq!(plan.removals, ids(&["c"]));
}

#[test]
fn duplicate_new_id_starts_once() {
    let config = Config { servers: vec![server("x", "ws://1"), server("x", "ws://2")] };
    let plan = plan_sync(&Vec::new(), &config);
    assert!(matches!(&plan.steps[0], SyncStep::Start(c) if c.url == "ws://1"));
    assert!(matches!(&plan.steps[1], SyncStep::Reconfigure(c) if c.url == "ws://2"));
    assert!(plan.removals.is_empty());
}

#[test]
fn empty_config_removes_everything() {
    let running = ids(&["a", "b"]);
    let plan = plan_sync(&running, &Config::default());
    assert!(plan.steps.is_empty());
    assert_eq!(plan.removals, running);
}

#[test]
fn contains_text_finds_ids() {
    let running = ids(&["a", "b"]);
    assert!(contains_text(&running, "b"));
    assert!(!contains_text(&running, "c"));
}
