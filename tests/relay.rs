use server_manager::relay::{convert_level, LogLevel, LogLine, LogRelay, ServerLog, MAX_CACHE_SIZE};

fn line(text: &str) -> LogLine {
    LogLine::new(LogLevel::Info, text.to_string())
}

fn texts(lines: &[LogLine]) -> Vec<String> {
    lines.iter().map(|l| l.text.clone()).collect()
}

#[test]
fn late_subscriber_is_replayed_everything_in_order() {
    let mut relay = LogRelay::new(3);
    relay.relay(line("one"));
    relay.relay(line("two"));
    relay.relay(line("three"));
    let backlog = relay.add_sender(7).expect("fresh id");
    assert_eq!(texts(&backlog), vec!["one", "two", "three"]);
}

#[test]
fn oldest_line_is_evicted_past_capacity() {
    let mut relay = LogRelay::new(3);
    for t in ["one", "two", "three", "four"] {
        relay.relay(line(t));
    }
    let backlog = relay.add_sender(1).expect("fresh id");
    assert_eq!(texts(&backlog), vec!["two", "three", "four"]);
}

#[test]
fn default_relay_keeps_a_thousand_lines() {
    let mut relay = LogRelay::default();
    for i in 0..(MAX_CACHE_SIZE + 1) {
        relay.relay(line(&i.to_string()));
    }
    let backlog = relay.add_sender(1).expect("fresh id");
    assert_eq!(backlog.len(), 1000);
    assert_eq!(backlog[0].text, "1");
    assert_eq!(backlog[999].text, "1000");
}

#[test]
fn new_subscriber_of_empty_relay_gets_nothing() {
    let mut relay = LogRelay::new(5);
    assert!(relay.add_sender(42).expect("fresh id").is_empty());
}

#[test]
fn relay_returns_registered_subscribers() {
    let mut relay = LogRelay::new(2);
    assert!(relay.relay(line("nobody")).is_empty());
    relay.add_sender(5).expect("fresh id");
    relay.add_sender(9).expect("fresh id");
    assert_eq!(relay.relay(line("hello")), vec![5, 9]);
}

#[test]
fn registered_id_is_refused() {
    let mut relay = LogRelay::new(2);
    relay.relay(line("a"));
    assert!(relay.add_sender(5).is_some());
    assert!(relay.add_sender(5).is_none());
    assert_eq!(relay.subscriber_count(), 1);
}

#[test]
fn removing_subscribers() {
    let mut relay = LogRelay::new(2);
    relay.add_sender(1).expect("fresh id");
    relay.add_sender(2).expect("fresh id");
    relay.add_sender(3).expect("fresh id");
    assert!(relay.remove_sender(2));
    assert!(!relay.remove_sender(2));
    assert_eq!(relay.relay(line("x")), vec![1, 3]);
}

#[test]
fn replay_keeps_severity() {
    let mut relay = LogRelay::new(4);
    relay.relay(LogLine::new(LogLevel::Warn, "careful".to_string()));
    let backlog = relay.add_sender(1).expect("fresh id");
    assert_eq!(backlog[0].level, LogLevel::Warn);
    assert_eq!(backlog[0].text, "careful");
}

#[test]
fn trace_is_reported_as_info() {
    assert_eq!(convert_level(LogLevel::Trace), LogLevel::Info);
    assert_eq!(convert_level(LogLevel::Debug), LogLevel::Debug);
    assert_eq!(convert_level(LogLevel::Info), LogLevel::Info);
    assert_eq!(convert_level(LogLevel::Warn), LogLevel::Warn);
    assert_eq!(convert_level(LogLevel::Error), LogLevel::Error);
}

#[test]
fn level_codes() {
    assert_eq!(LogLevel::from_code(0), Some(LogLevel::Trace));
    assert_eq!(LogLevel::from_code(4), Some(LogLevel::Error));
    assert_eq!(LogLevel::from_code(5), None);
    assert_eq!(LogLevel::from_code(-1), None);
    assert_eq!(LogLevel::Warn.code(), 3);
}

#[test]
fn server_log_appends() {
    let mut log = ServerLog::new();
    log.push(line("a"));
    log.push(line("b"));
    assert_eq!(texts(&log.logs), vec!["a", "b"]);
}
