use mcmanager::log::BoundedLog;

#[test]
fn push_keeps_latest_lines() {
    let mut log = BoundedLog::new(3);
    for i in 0..5 {
        log.push(format!("line {}", i));
    }
    assert_eq!(log.len(), 3);
    assert_eq!(log.capacity(), 3);
    assert_eq!(log.snapshot(), vec!["line 2".to_string(), "line 3".to_string(), "line 4".to_string()]);
}

#[test]
fn push_below_capacity_appends() {
    let mut log = BoundedLog::new(500);
    log.push("first".to_string());
    log.push("second".to_string());
    assert_eq!(log.snapshot(), vec!["first".to_string(), "second".to_string()]);
}

#[test]
fn history_of_five_hundred_drops_oldest() {
    let mut log = mcmanager::session::new_history();
    for i in 0..600 {
        log.push(i.to_string());
    }
    let lines = log.snapshot();
    assert_eq!(lines.len(), 500);
    assert_eq!(lines[0], "100");
    assert_eq!(lines[499], "599");
}

#[test]
fn push_text_splits_lines() {
    let mut log = BoundedLog::new(2);
    log.push("old".to_string());
    log.push_text("a\r\nb\nc");
    assert_eq!(log.snapshot(), vec!["b".to_string(), "c".to_string()]);
    log.push_text("");
    assert_eq!(log.len(), 2);
}
