//! The script dialogs' key handling, driven through the library's routing. A small host here
//! plays the widgets the routing hands keys to: the vim-style code editor (Insert mode on
//! `i`, back to Normal on Esc, text otherwise), the help overlay (closed by Esc, `q` or `?`)
//! and the text fields.
use ferrowl::dialog::CloseConfirmEvent;
use ferrowl::dialog_keys::{
    dialog_action, next_pane, prev_pane, route_key, DeleteConfirmStep, DialogAction, DialogKey,
    KeyRoute, KeyState, Mods, ScriptPane,
};

struct Host {
    st: KeyState,
    session: bool,
    code_enabled: bool,
    insert_mode: bool,
    compact: bool,
    name_input: String,
    interval: String,
    code: String,
}

impl Host {
    fn script_dialog(with_script: bool) -> Host {
        Host::new(false, ScriptPane::Table, with_script)
    }

    fn session_dialog(with_script: bool) -> Host {
        Host::new(true, ScriptPane::Interval, with_script)
    }

    fn new(session: bool, focus: ScriptPane, with_script: bool) -> Host {
        Host {
            st: KeyState {
                help_open: false,
                close_confirm_open: false,
                delete_confirm_open: false,
                focus,
                code_normal_mode: true,
            },
            session,
            code_enabled: with_script,
            insert_mode: false,
            compact: false,
            name_input: String::new(),
            interval: String::new(),
            code: String::new(),
        }
    }

    /// Feeds a key; `true` when the dialog asks to be closed.
    fn key(&mut self, mods: Mods, key: DialogKey) -> bool {
        self.st.code_normal_mode = !self.insert_mode;
        match route_key(self.st, mods, key) {
            KeyRoute::Help => {
                if matches!(key, DialogKey::Esc | DialogKey::Char('q') | DialogKey::Char('?')) {
                    self.st.help_open = false;
                }
                false
            }
            KeyRoute::CloseConfirm(CloseConfirmEvent::Close) => true,
            KeyRoute::CloseConfirm(CloseConfirmEvent::Dismiss) => {
                self.st.close_confirm_open = false;
                false
            }
            KeyRoute::CloseConfirm(CloseConfirmEvent::Consumed) => false,
            KeyRoute::DeleteConfirm(step) => {
                if matches!(step, DeleteConfirmStep::Dismiss | DeleteConfirmStep::Decide) {
                    self.st.delete_confirm_open = false;
                }
                false
            }
            KeyRoute::OpenHelp => {
                self.st.help_open = true;
                false
            }
            KeyRoute::Editor => {
                let consumed = if self.insert_mode {
                    match key {
                        DialogKey::Esc => {
                            self.insert_mode = false;
                            true
                        }
                        DialogKey::Char(c) => {
                            self.code.push(c);
                            true
                        }
                        _ => true,
                    }
                } else {
                    match key {
                        DialogKey::Char('i') => {
                            self.insert_mode = true;
                            true
                        }
                        DialogKey::Char(_) => true,
                        _ => false,
                    }
                };
                if !consumed {
                    let action = dialog_action(self.st.focus, mods, key);
                    self.apply(action, key);
                }
                false
            }
            KeyRoute::Dialog(action) => {
                self.apply(action, key);
                false
            }
        }
    }

    fn apply(&mut self, action: DialogAction, key: DialogKey) {
        match action {
            DialogAction::FocusNext => {
                self.st.focus = next_pane(self.st.focus, self.session, self.code_enabled)
            }
            DialogAction::FocusPrevious => {
                self.st.focus = prev_pane(self.st.focus, self.session, self.code_enabled)
            }
            DialogAction::OpenCloseConfirm => self.st.close_confirm_open = true,
            DialogAction::ToggleCompact => self.compact = !self.compact,
            DialogAction::AskDelete => {
                if self.code_enabled {
                    self.st.delete_confirm_open = true;
                }
            }
            DialogAction::CreateScript => self.code_enabled = true,
            DialogAction::NameInputKey => {
                if let DialogKey::Char(c) = key {
                    self.name_input.push(c);
                }
            }
            DialogAction::IntervalKey => {
                if let DialogKey::Char(c) = key {
                    self.interval.push(c);
                }
            }
            _ => {}
        }
    }

    fn plain(&mut self, key: DialogKey) -> bool {
        self.key(Mods::Plain, key)
    }
}

// ---- The device script dialog ----

#[test]
fn code_editor_disabled_and_skipped_without_selection() {
    let mut d = Host::script_dialog(false);
    d.plain(DialogKey::Tab);
    assert_eq!(d.st.focus, ScriptPane::NameInput);
    d.plain(DialogKey::Tab);
    assert_eq!(d.st.focus, ScriptPane::Table);
    d.plain(DialogKey::BackTab);
    assert_eq!(d.st.focus, ScriptPane::NameInput);
}

#[test]
fn code_editor_reachable_with_selection() {
    let mut d = Host::script_dialog(true);
    d.plain(DialogKey::Tab);
    d.plain(DialogKey::Tab);
    assert_eq!(d.st.focus, ScriptPane::Code);
}

#[test]
fn c_toggles_compact_in_list_not_in_name_input() {
    let mut d = Host::script_dialog(true);
    assert!(!d.compact);
    d.plain(DialogKey::Char('c'));
    assert!(d.compact);
    d.plain(DialogKey::Char('c'));
    assert!(!d.compact);
    d.st.focus = ScriptPane::NameInput;
    d.plain(DialogKey::Char('c'));
    assert!(!d.compact);
    assert_eq!(d.name_input, "c");
}

#[test]
fn esc_then_enter_closes() {
    let mut d = Host::script_dialog(true);
    assert!(!d.plain(DialogKey::Esc));
    assert!(d.st.close_confirm_open);
    assert!(d.plain(DialogKey::Enter));
}

#[test]
fn esc_does_not_close() {
    let mut d = Host::script_dialog(true);
    assert!(!d.plain(DialogKey::Esc));
    assert!(d.st.close_confirm_open);
    assert_eq!(d.st.focus, ScriptPane::Table);
    d.st.close_confirm_open = false;
    d.plain(DialogKey::Tab);
    d.plain(DialogKey::Tab);
    assert_eq!(d.st.focus, ScriptPane::Code);
    assert!(!d.insert_mode);
    assert!(!d.plain(DialogKey::Esc));
    assert!(d.st.close_confirm_open);
}

#[test]
fn esc_in_confirm_keeps_dialog() {
    let mut d = Host::script_dialog(true);
    assert!(!d.plain(DialogKey::Esc));
    assert!(d.st.close_confirm_open);
    assert!(!d.plain(DialogKey::Esc));
    assert!(!d.st.close_confirm_open);
}

#[test]
fn space_in_confirm_closes() {
    let mut d = Host::script_dialog(true);
    d.plain(DialogKey::Esc);
    assert!(d.st.close_confirm_open);
    assert!(d.plain(DialogKey::Char(' ')));
}

#[test]
fn esc_from_code_normal_opens_confirm() {
    let mut d = Host::script_dialog(true);
    d.plain(DialogKey::Tab);
    d.plain(DialogKey::Tab);
    assert_eq!(d.st.focus, ScriptPane::Code);
    assert!(!d.insert_mode);
    assert!(!d.plain(DialogKey::Esc));
    assert!(d.st.close_confirm_open);
}

#[test]
fn insert_esc_goes_normal_no_confirm() {
    let mut d = Host::script_dialog(true);
    d.plain(DialogKey::Tab);
    d.plain(DialogKey::Tab);
    assert_eq!(d.st.focus, ScriptPane::Code);
    d.plain(DialogKey::Char('i'));
    assert!(d.insert_mode);
    assert!(!d.plain(DialogKey::Esc));
    assert!(!d.insert_mode);
    assert!(!d.st.close_confirm_open);
}

#[test]
fn colon_in_name_input_types() {
    let mut d = Host::script_dialog(true);
    d.st.focus = ScriptPane::NameInput;
    assert!(!d.plain(DialogKey::Char(':')));
    assert_eq!(d.name_input, ":");
}

#[test]
fn colon_in_code_insert_inserts() {
    let mut d = Host::script_dialog(true);
    d.plain(DialogKey::Tab);
    d.plain(DialogKey::Tab);
    assert_eq!(d.st.focus, ScriptPane::Code);
    d.plain(DialogKey::Char('i'));
    assert!(d.insert_mode);
    d.plain(DialogKey::Char(':'));
    assert!(d.code.contains(':'));
}

#[test]
fn colon_in_code_normal_no_overlay() {
    let mut d = Host::script_dialog(true);
    d.plain(DialogKey::Tab);
    d.plain(DialogKey::Tab);
    assert_eq!(d.st.focus, ScriptPane::Code);
    assert!(!d.insert_mode);
    assert!(!d.plain(DialogKey::Char(':')));
    assert!(!d.st.close_confirm_open);
    assert!(!d.st.help_open);
}

#[test]
fn confirm_esc_still_cancels() {
    let mut d = Host::script_dialog(true);
    d.plain(DialogKey::Char('d'));
    assert!(d.st.delete_confirm_open);
    assert!(!d.plain(DialogKey::Esc));
    assert!(!d.st.delete_confirm_open);
}

#[test]
fn question_opens_bindings_only_code_normal() {
    let mut d = Host::script_dialog(true);
    d.plain(DialogKey::Char('?'));
    assert!(!d.st.help_open);

    d.plain(DialogKey::Tab);
    d.plain(DialogKey::Tab);
    assert_eq!(d.st.focus, ScriptPane::Code);
    d.plain(DialogKey::Char('i'));
    d.plain(DialogKey::Char('?'));
    assert!(d.code.contains('?'));
    assert!(!d.st.help_open);

    d.plain(DialogKey::Esc);
    assert!(!d.insert_mode);
    d.plain(DialogKey::Char('?'));
    assert!(d.st.help_open);
}

#[test]
fn bindings_close_keys() {
    for close_key in [DialogKey::Esc, DialogKey::Char('q'), DialogKey::Char('?')] {
        let mut d = Host::script_dialog(true);
        d.plain(DialogKey::Tab);
        d.plain(DialogKey::Tab);
        d.plain(DialogKey::Char('?'));
        assert!(d.st.help_open);
        assert_eq!(route_key(d.st, Mods::Plain, close_key), KeyRoute::Help);
        assert!(!d.plain(close_key));
        assert!(!d.st.help_open);
    }
}

// ---- The session dialog ----

#[test]
fn ut_tab_rotates_through_all_fields() {
    let mut d = Host::session_dialog(true);
    assert_eq!(d.st.focus, ScriptPane::Interval);
    let expected = [
        ScriptPane::Table,
        ScriptPane::NameInput,
        ScriptPane::Code,
        ScriptPane::Log,
        ScriptPane::Interval,
    ];
    for focus in expected {
        assert!(!d.plain(DialogKey::Tab));
        assert_eq!(d.st.focus, focus);
    }
}

#[test]
fn ut_backtab_rotates_in_reverse() {
    let mut d = Host::session_dialog(true);
    let expected = [
        ScriptPane::Log,
        ScriptPane::Code,
        ScriptPane::NameInput,
        ScriptPane::Table,
        ScriptPane::Interval,
    ];
    for focus in expected {
        assert!(!d.key(Mods::Shift, DialogKey::BackTab));
        assert_eq!(d.st.focus, focus);
    }
}

#[test]
fn ut_rotation_skips_disabled_code_editor() {
    let mut d = Host::session_dialog(false);
    d.plain(DialogKey::Tab);
    d.plain(DialogKey::Tab);
    d.plain(DialogKey::Tab);
    assert_eq!(d.st.focus, ScriptPane::Log);
    d.key(Mods::Shift, DialogKey::BackTab);
    assert_eq!(d.st.focus, ScriptPane::NameInput);
}

#[test]
fn ut_esc_does_not_close() {
    let mut d = Host::session_dialog(true);
    d.plain(DialogKey::Tab);
    assert!(!d.plain(DialogKey::Esc));
    assert_eq!(d.st.focus, ScriptPane::Table);
    assert!(d.st.close_confirm_open);
}

#[test]
fn ut_typing_in_interval_updates_input() {
    let mut d = Host::session_dialog(true);
    d.plain(DialogKey::Char('9'));
    assert!(d.interval.contains('9'));
}

#[test]
fn ut_esc_then_enter_closes() {
    let mut d = Host::session_dialog(true);
    d.plain(DialogKey::Tab);
    assert!(!d.plain(DialogKey::Esc));
    assert!(d.st.close_confirm_open);
    assert!(d.plain(DialogKey::Enter));
}

#[test]
fn ut_esc_in_confirm_keeps_dialog() {
    let mut d = Host::session_dialog(true);
    d.plain(DialogKey::Tab);
    assert!(!d.plain(DialogKey::Esc));
    assert!(d.st.close_confirm_open);
    assert!(!d.plain(DialogKey::Esc));
    assert!(!d.st.close_confirm_open);
}

#[test]
fn ut_space_in_confirm_closes() {
    let mut d = Host::session_dialog(true);
    d.plain(DialogKey::Esc);
    assert!(d.st.close_confirm_open);
    assert!(d.plain(DialogKey::Char(' ')));
}

#[test]
fn ut_esc_from_code_normal_opens_confirm() {
    let mut d = Host::session_dialog(true);
    d.plain(DialogKey::Tab);
    d.plain(DialogKey::Tab);
    d.plain(DialogKey::Tab);
    assert_eq!(d.st.focus, ScriptPane::Code);
    assert!(!d.insert_mode);
    assert!(!d.plain(DialogKey::Esc));
    assert!(d.st.close_confirm_open);
}

#[test]
fn ut_insert_esc_goes_normal_no_confirm() {
    let mut d = Host::session_dialog(true);
    d.plain(DialogKey::Tab);
    d.plain(DialogKey::Tab);
    d.plain(DialogKey::Tab);
    assert_eq!(d.st.focus, ScriptPane::Code);
    d.plain(DialogKey::Char('i'));
    assert!(d.insert_mode);
    assert!(!d.plain(DialogKey::Esc));
    assert!(!d.insert_mode);
    assert!(!d.st.close_confirm_open);
}

#[test]
fn ut_colon_in_name_input_types() {
    let mut d = Host::session_dialog(true);
    d.plain(DialogKey::Tab);
    d.plain(DialogKey::Tab);
    assert_eq!(d.st.focus, ScriptPane::NameInput);
    assert!(!d.plain(DialogKey::Char(':')));
    assert_eq!(d.name_input, ":");
}

#[test]
fn ut_colon_in_code_insert_inserts() {
    let mut d = Host::session_dialog(true);
    d.plain(DialogKey::Tab);
    d.plain(DialogKey::Tab);
    d.plain(DialogKey::Tab);
    assert_eq!(d.st.focus, ScriptPane::Code);
    d.plain(DialogKey::Char('i'));
    assert!(d.insert_mode);
    d.plain(DialogKey::Char(':'));
    assert!(d.code.contains(':'));
}

#[test]
fn ut_colon_in_code_normal_no_overlay() {
    let mut d = Host::session_dialog(true);
    d.plain(DialogKey::Tab);
    d.plain(DialogKey::Tab);
    d.plain(DialogKey::Tab);
    assert_eq!(d.st.focus, ScriptPane::Code);
    assert!(!d.insert_mode);
    assert!(!d.plain(DialogKey::Char(':')));
    assert!(!d.st.close_confirm_open);
    assert!(!d.st.help_open);
}

#[test]
fn ut_confirm_esc_still_cancels() {
    let mut d = Host::session_dialog(true);
    d.plain(DialogKey::Tab);
    d.plain(DialogKey::Char('d'));
    assert!(d.st.delete_confirm_open);
    assert!(!d.plain(DialogKey::Esc));
    assert!(!d.st.delete_confirm_open);
}

#[test]
fn ut_question_opens_bindings_only_code_normal() {
    let mut d = Host::session_dialog(true);
    d.plain(DialogKey::Tab);
    d.plain(DialogKey::Char('?'));
    assert!(!d.st.help_open);

    d.plain(DialogKey::Tab);
    d.plain(DialogKey::Tab);
    assert_eq!(d.st.focus, ScriptPane::Code);
    d.plain(DialogKey::Char('i'));
    d.plain(DialogKey::Char('?'));
    assert!(d.code.contains('?'));
    assert!(!d.st.help_open);

    d.plain(DialogKey::Esc);
    assert!(!d.insert_mode);
    d.plain(DialogKey::Char('?'));
    assert!(d.st.help_open);
}

#[test]
fn ut_bindings_close_keys() {
    for close_key in [DialogKey::Esc, DialogKey::Char('q'), DialogKey::Char('?')] {
        let mut d = Host::session_dialog(true);
        d.plain(DialogKey::Tab);
        d.plain(DialogKey::Tab);
        d.plain(DialogKey::Tab);
        d.plain(DialogKey::Char('?'));
        assert!(d.st.help_open);
        assert!(!d.plain(close_key));
        assert!(!d.st.help_open);
    }
}
