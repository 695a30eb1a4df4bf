use ferrowl::headless::{
    after_tick, plan_drain, start_failed, start_outcome, DrainPlan, EXIT_OK, EXIT_SCRIPT_ERROR,
};

fn window(lines: &[&str]) -> Vec<(u64, String)> {
    lines
        .iter()
        .enumerate()
        .map(|(i, l)| (i as u64, l.to_string()))
        .collect()
}

#[test]
fn headless_drain_takes_only_new_lines() {
    let w = window(&["a", "b", "c"]);
    let plan = plan_drain(5, 4, &w, false);
    assert_eq!(
        plan,
        DrainPlan { dropped: 0, start: 2, hit_error: false, last_written: 5 }
    );
}

#[test]
fn headless_drain_counts_lines_lost_to_overflow() {
    let w = window(&["x", "y"]);
    let plan = plan_drain(10, 3, &w, false);
    assert_eq!(plan.dropped, 5);
    assert_eq!(plan.start, 0);
    assert_eq!(plan.last_written, 10);
}

#[test]
fn headless_drain_nothing_new() {
    let w = window(&["x", "[sim] boom"]);
    let plan = plan_drain(2, 2, &w, true);
    assert_eq!(plan.start, 2);
    assert_eq!(plan.dropped, 0);
    assert!(!plan.hit_error);
}

#[test]
fn headless_drain_stops_on_new_script_error_only_when_asked() {
    let w = window(&["ok", "[sim] boom", "after"]);
    assert!(plan_drain(3, 0, &w, true).hit_error);
    assert!(!plan_drain(3, 0, &w, false).hit_error);
    // The error line was drained before: it does not stop the run again.
    assert!(!plan_drain(3, 2, &w, true).hit_error);
}

#[test]
fn headless_drain_repeated_line_is_drained_again() {
    let w = window(&["same", "same"]);
    let plan = plan_drain(2, 1, &w, false);
    assert_eq!(plan.start, 1);
}

#[test]
fn headless_start_failed_is_case_insensitive() {
    assert!(start_failed("Module start FAILED: port busy"));
    assert!(start_failed("bind failed"));
    assert!(!start_failed("started"));
    assert!(!start_failed("fail"));
}

#[test]
fn headless_start_outcome() {
    assert_eq!(start_outcome("evse", None), Ok(None));
    assert_eq!(
        start_outcome("evse", Some("Started on 0.0.0.0:502".to_string())),
        Ok(Some("Started on 0.0.0.0:502".to_string()))
    );
    assert_eq!(
        start_outcome("evse", Some("Listen Failed: busy".to_string())),
        Err("'evse': Listen Failed: busy".to_string())
    );
}

#[test]
fn headless_after_tick_exit_codes() {
    assert_eq!(after_tick(true, true), Some(EXIT_SCRIPT_ERROR));
    assert_eq!(after_tick(false, true), Some(EXIT_OK));
    assert_eq!(after_tick(false, false), None);
    assert_eq!(EXIT_SCRIPT_ERROR, 3);
    assert_eq!(after_tick(true, false), Some(3));
}

#[test]
fn headless_drain_lines_marker_first_then_entries() {
    let w = window(&["a", "b"]);
    let plan = plan_drain(10, 3, &w, false);
    let stamps = vec!["t0".to_string(), "t1".to_string()];
    let lines = ferrowl::headless::drain_lines("evse", &plan, &w, "now", &stamps);
    assert_eq!(
        lines,
        vec![
            "[now] evse | (5 lines dropped: ring overflowed between ticks)".to_string(),
            "[t0] evse | a".to_string(),
            "[t1] evse | b".to_string(),
        ]
    );
    let plan = plan_drain(11, 10, &w, false);
    let lines = ferrowl::headless::drain_lines("evse", &plan, &w, "now", &stamps);
    assert_eq!(lines, vec!["[t1] evse | b".to_string()]);
    let plan = plan_drain(11, 11, &w, false);
    assert!(ferrowl::headless::drain_lines("evse", &plan, &w, "now", &stamps).is_empty());
}
