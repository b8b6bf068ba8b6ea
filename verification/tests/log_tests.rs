use vibetunnel_core::log_collector::LogCollector;

fn add(c: &mut LogCollector, msg: &str) {
    c.add_log("2024-01-01 00:00:00".to_string(), "info".to_string(), msg.to_string());
}

#[test]
fn bounded_buffer_drops_oldest() {
    let mut c = LogCollector::new(2);
    add(&mut c, "one");
    add(&mut c, "two");
    add(&mut c, "three");
    let logs = c.get_logs();
    assert_eq!(logs.len(), 2);
    assert_eq!(logs[0].message, "two");
    assert_eq!(logs[1].message, "three");
}

#[test]
fn buffer_below_bound_keeps_everything() {
    let mut c = LogCollector::new(10);
    add(&mut c, "a");
    add(&mut c, "b");
    let logs = c.get_logs();
    assert_eq!(logs.len(), 2);
    assert_eq!(logs[0].message, "a");
    assert_eq!(logs[0].level, "info");
    assert_eq!(logs[0].timestamp, "2024-01-01 00:00:00");
}

#[test]
fn clear_empties_buffer() {
    let mut c = LogCollector::new(3);
    add(&mut c, "a");
    c.clear();
    assert!(c.get_logs().is_empty());
    add(&mut c, "b");
    assert_eq!(c.get_logs().len(), 1);
}
