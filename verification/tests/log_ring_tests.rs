use ferrowl::log_ring::{LogRing, LOG_MAX_LINE, LOG_SIZE};

#[test]
fn ring_write_then_peek() {
    let mut log = LogRing::init();
    log.write_at(5, "hello");
    assert_eq!(log.peek_n(1), vec![(5, "hello".to_string())]);
    assert_eq!(log.len(), 1);
}

#[test]
fn ring_cuts_long_lines() {
    let mut log = LogRing::init();
    let long = "x".repeat(LOG_MAX_LINE + 10);
    log.write_at(1, &long);
    assert_eq!(log.peek_n(1)[0].1.chars().count(), LOG_MAX_LINE);
}

#[test]
fn ring_keeps_most_recent_oldest_first() {
    let mut log = LogRing::init();
    for i in 0..(LOG_SIZE as u64 + 5) {
        log.write_at(i, &format!("line {i}"));
    }
    assert_eq!(log.len(), LOG_SIZE);
    let all = log.peek_n(1000);
    assert_eq!(all.len(), LOG_SIZE);
    assert_eq!(all[0], (5, "line 5".to_string()));
    assert_eq!(all[LOG_SIZE - 1].0, LOG_SIZE as u64 + 4);
    let last_two = log.peek_n(2);
    assert_eq!(last_two[0].0, LOG_SIZE as u64 + 3);
    assert_eq!(last_two[1].0, LOG_SIZE as u64 + 4);
}

#[test]
fn ring_clear_and_timestamped_write() {
    let mut log = LogRing::init();
    log.write("now");
    assert_eq!(log.peek_n(1)[0].1, "now");
    log.clear();
    assert_eq!(log.len(), 0);
    assert!(log.peek_n(3).is_empty());
}
