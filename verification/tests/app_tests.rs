use ferrowl::command::{parse, Cmd};
use ferrowl::registers::{parse_raw_value, raw_hex};
use ferrowl::tabs::{
    command_plan, digit_outcome, next_tab, prev_tab, script_copy_report, switch_tab,
    validate_copy_index, CommandPlan, DigitOutcome, KeyMode, NavAction, NavKey, NavState,
};

#[test]
fn ut_validate_copy_index() {
    assert_eq!(
        validate_copy_index(None, 3, 0),
        Err("usage: :script copy <tab-index>".to_string())
    );
    assert_eq!(
        validate_copy_index(Some(5), 3, 0),
        Err("no tab [5] (0..=2)".to_string())
    );
    assert_eq!(
        validate_copy_index(Some(1), 3, 1),
        Err("cannot copy from the active tab".to_string())
    );
    assert_eq!(validate_copy_index(Some(2), 3, 0), Ok(2));
}

#[test]
fn validate_copy_index_without_tabs() {
    assert_eq!(
        validate_copy_index(Some(0), 0, 0),
        Err("no tab [0] (no tabs open)".to_string())
    );
}

#[test]
fn script_copy_reports() {
    assert_eq!(
        script_copy_report(2, Some(3), true),
        "Replaced scripts with 3 script(s) from tab [2]"
    );
    assert_eq!(script_copy_report(2, None, true), "tab [2] has no script support");
    assert_eq!(
        script_copy_report(2, Some(3), false),
        "active module has no script support"
    );
}

#[test]
fn single_digit_jumps_immediately_when_at_most_ten_tabs() {
    assert_eq!(digit_outcome(None, 3, 5), DigitOutcome::Jump(3));
}

#[test]
fn first_digit_waits_when_it_could_start_a_two_digit_index() {
    assert_eq!(digit_outcome(None, 1, 25), DigitOutcome::Wait(1));
}

#[test]
fn valid_two_digit_combo_jumps() {
    assert_eq!(digit_outcome(Some(1), 2, 25), DigitOutcome::Jump(12));
}

#[test]
fn invalid_combo_falls_back_to_first_digit() {
    assert_eq!(digit_outcome(Some(1), 9, 15), DigitOutcome::Jump(1));
}

#[test]
fn out_of_range_single_digit_is_ignored() {
    assert_eq!(digit_outcome(None, 7, 5), DigitOutcome::Ignore);
}

#[test]
fn leading_zero_jumps_immediately_even_with_many_tabs() {
    assert_eq!(digit_outcome(None, 0, 25), DigitOutcome::Jump(0));
}

#[test]
fn tab_steps_wrap_and_undo_each_other() {
    assert_eq!(next_tab(2, 3), 0);
    assert_eq!(prev_tab(0, 3), 2);
    for active in 0..4 {
        assert_eq!(prev_tab(next_tab(active, 4), 4), active);
        assert_eq!(next_tab(prev_tab(active, 4), 4), active);
    }
    assert_eq!(switch_tab(1, 7, 3), 1);
    assert_eq!(switch_tab(1, 2, 3), 2);
}

fn nav(tab_count: usize) -> NavState {
    NavState {
        help_open: false,
        help_scroll: 0,
        keymode: None,
        active: 0,
        tab_count,
        overlay_active: false,
    }
}

#[test]
fn ctrl_t_digit_chord_jumps_to_a_two_digit_tab() {
    let mut s = nav(25);
    assert_eq!(s.handle_nav_key(true, NavKey::Char('t')), NavAction::Nothing);
    assert_eq!(s.keymode, Some(KeyMode::CtrlTab));
    assert_eq!(
        s.handle_nav_key(false, NavKey::Char('1')),
        NavAction::AwaitSecondDigit
    );
    assert_eq!(s.keymode, Some(KeyMode::TabDigit { first: 1 }));
    assert_eq!(s.handle_nav_key(false, NavKey::Char('2')), NavAction::Nothing);
    assert_eq!(s.active, 12);
    assert_eq!(s.keymode, None);
}

#[test]
fn pending_digit_commits_before_another_key_is_forwarded() {
    let mut s = nav(25);
    s.handle_nav_key(true, NavKey::Char('t'));
    s.handle_nav_key(false, NavKey::Char('2'));
    assert_eq!(s.handle_nav_key(false, NavKey::Down), NavAction::Forward);
    assert_eq!(s.active, 2);
    assert_eq!(s.keymode, None);
}

#[test]
fn ctrl_w_toggles_the_pane_and_help_is_modal() {
    let mut s = nav(2);
    s.handle_nav_key(true, NavKey::Char('w'));
    assert_eq!(s.handle_nav_key(false, NavKey::Char('j')), NavAction::TogglePane);
    assert_eq!(s.handle_nav_key(false, NavKey::Char('?')), NavAction::Nothing);
    assert!(s.help_open);
    assert_eq!(s.handle_nav_key(false, NavKey::Char('G')), NavAction::Nothing);
    assert_eq!(s.help_scroll, u16::MAX);
    assert_eq!(s.handle_nav_key(false, NavKey::Char('j')), NavAction::Nothing);
    assert_eq!(s.help_scroll, u16::MAX);
    assert_eq!(s.handle_nav_key(false, NavKey::Char(':')), NavAction::Nothing);
    assert_eq!(s.handle_nav_key(false, NavKey::Esc), NavAction::Nothing);
    assert!(!s.help_open);
    assert_eq!(s.help_scroll, 0);
    assert_eq!(s.handle_nav_key(false, NavKey::Char(':')), NavAction::EnterCommand);
}

#[test]
fn colon_is_kept_by_an_active_overlay() {
    let mut s = nav(2);
    s.overlay_active = true;
    assert_eq!(s.handle_nav_key(false, NavKey::Char(':')), NavAction::Forward);
}

#[test]
fn command_plans() {
    assert!(matches!(command_plan(parse("q"), 1, 0), CommandPlan::Quit));
    assert!(matches!(
        command_plan(parse("q"), 3, 2),
        CommandPlan::CloseTab { new_active: 1 }
    ));
    assert!(matches!(
        command_plan(parse("q"), 3, 0),
        CommandPlan::CloseTab { new_active: 0 }
    ));
    match command_plan(parse("w"), 1, 0) {
        CommandPlan::SaveSession(p) => assert_eq!(p, "session.toml"),
        _ => panic!("expected a session save"),
    }
    match command_plan(parse("set power"), 1, 0) {
        CommandPlan::Report(m) => assert_eq!(m, ":set requires <register> <value>"),
        _ => panic!("expected a usage report"),
    }
    match command_plan(parse("log"), 1, 0) {
        CommandPlan::Report(m) => assert_eq!(m, ":log requires <file>"),
        _ => panic!("expected a usage report"),
    }
    match command_plan(Cmd::Unknown("bogus".to_string()), 1, 0) {
        CommandPlan::Report(m) => assert_eq!(m, "Unknown command ':bogus'"),
        _ => panic!("expected an unknown-command report"),
    }
    assert!(matches!(
        command_plan(parse("set power 5"), 1, 0),
        CommandPlan::SetValue { .. }
    ));
}

#[test]
fn raw_hex_formats_lowercase_words() {
    assert_eq!(raw_hex(&[0x00a0, 0x0001]), "[00a0 0001]");
    assert_eq!(raw_hex(&[]), "[]");
    assert_eq!(raw_hex(&[0xBEEF]), "[beef]");
}

#[test]
fn parse_raw_value_reads_big_endian_words() {
    assert_eq!(parse_raw_value("[00a0 0001]"), Some(0x00a0_0001));
    assert_eq!(parse_raw_value("  [ffff]  "), Some(0xffff));
    assert_eq!(parse_raw_value("[]"), Some(0));
    assert_eq!(parse_raw_value("[zz]"), None);
    assert_eq!(parse_raw_value("00a0"), None);
    assert_eq!(parse_raw_value("["), None);
    assert_eq!(
        parse_raw_value("[ffff ffff ffff ffff]"),
        Some(-1)
    );
}

#[test]
fn raw_hex_reads_back() {
    let words = [0x1234u16, 0xabcd, 0x0007];
    assert_eq!(parse_raw_value(&raw_hex(&words)), Some(0x1234_abcd_0007));
}
