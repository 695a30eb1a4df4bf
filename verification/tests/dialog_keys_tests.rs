use ferrowl::dialog::{
    alignment_index, endian_index, format_index, format_label, kind_index, kind_label,
    register_name_error, tab_name_error, CloseConfirmEvent,
};
use ferrowl::config::{AlignmentCfg, EndianCfg, RegKind, ValueType};
use ferrowl::dialog_keys::{
    dialog_action, edit_dialog_switch, edit_key_action, route_key, DeleteConfirmStep,
    DialogAction, DialogKey, EditKeyAction, EditKeyState, KeyRoute, KeyState, Mods, OverlayKind,
    ScriptPane, SubDialogStep,
};

fn state(focus: ScriptPane) -> KeyState {
    KeyState {
        help_open: false,
        close_confirm_open: false,
        delete_confirm_open: false,
        focus,
        code_normal_mode: true,
    }
}

#[test]
fn keys_layers_take_precedence() {
    let mut st = state(ScriptPane::Table);
    st.help_open = true;
    st.close_confirm_open = true;
    assert_eq!(route_key(st, Mods::Plain, DialogKey::Esc), KeyRoute::Help);
    st.help_open = false;
    assert_eq!(
        route_key(st, Mods::Plain, DialogKey::Enter),
        KeyRoute::CloseConfirm(CloseConfirmEvent::Close)
    );
    assert_eq!(
        route_key(st, Mods::Plain, DialogKey::Esc),
        KeyRoute::CloseConfirm(CloseConfirmEvent::Dismiss)
    );
    st.close_confirm_open = false;
    st.delete_confirm_open = true;
    assert_eq!(
        route_key(st, Mods::Plain, DialogKey::Char(' ')),
        KeyRoute::DeleteConfirm(DeleteConfirmStep::Decide)
    );
    assert_eq!(
        route_key(st, Mods::Shift, DialogKey::BackTab),
        KeyRoute::DeleteConfirm(DeleteConfirmStep::FocusPrevious)
    );
    assert_eq!(
        route_key(st, Mods::Plain, DialogKey::Char('x')),
        KeyRoute::DeleteConfirm(DeleteConfirmStep::Forward)
    );
}

#[test]
fn keys_question_mark_in_code_editor() {
    let mut st = state(ScriptPane::Code);
    assert_eq!(route_key(st, Mods::Shift, DialogKey::Char('?')), KeyRoute::OpenHelp);
    st.code_normal_mode = false;
    assert_eq!(route_key(st, Mods::Shift, DialogKey::Char('?')), KeyRoute::Editor);
    assert_eq!(route_key(st, Mods::Plain, DialogKey::Tab), KeyRoute::Editor);
}

#[test]
fn keys_dialog_actions() {
    assert_eq!(
        route_key(state(ScriptPane::Table), Mods::Plain, DialogKey::Char('d')),
        KeyRoute::Dialog(DialogAction::AskDelete)
    );
    assert_eq!(dialog_action(ScriptPane::Table, Mods::Plain, DialogKey::Char('t')), DialogAction::ToggleSelected);
    assert_eq!(dialog_action(ScriptPane::Table, Mods::Plain, DialogKey::Char('c')), DialogAction::ToggleCompact);
    assert_eq!(dialog_action(ScriptPane::Table, Mods::Other, DialogKey::Char('t')), DialogAction::TableKey);
    assert_eq!(dialog_action(ScriptPane::NameInput, Mods::Plain, DialogKey::Enter), DialogAction::CreateScript);
    assert_eq!(dialog_action(ScriptPane::Log, Mods::Plain, DialogKey::Tab), DialogAction::FocusNext);
    assert_eq!(dialog_action(ScriptPane::Interval, Mods::Plain, DialogKey::Esc), DialogAction::OpenCloseConfirm);
    assert_eq!(dialog_action(ScriptPane::Code, Mods::Plain, DialogKey::Char('a')), DialogAction::Ignore);
    assert_eq!(dialog_action(ScriptPane::Interval, Mods::Plain, DialogKey::Char('1')), DialogAction::IntervalKey);
}

#[test]
fn keys_edit_dialog_routing() {
    let mut st = EditKeyState {
        overlay: OverlayKind::Edit,
        sub_dialog_open: true,
        script_focused: false,
        confirm_focused: false,
    };
    assert_eq!(
        edit_key_action(st, Mods::Other, DialogKey::Esc),
        EditKeyAction::SubDialog(SubDialogStep::Close)
    );
    st.sub_dialog_open = false;
    assert_eq!(edit_key_action(st, Mods::Plain, DialogKey::Esc), EditKeyAction::CloseOverlay);
    assert_eq!(edit_key_action(st, Mods::Plain, DialogKey::Enter), EditKeyAction::Confirm);
    assert_eq!(edit_key_action(st, Mods::Plain, DialogKey::Char(' ')), EditKeyAction::Space);
    st.script_focused = true;
    assert_eq!(edit_key_action(st, Mods::Plain, DialogKey::Enter), EditKeyAction::Forward);
    st.confirm_focused = true;
    assert_eq!(edit_key_action(st, Mods::Plain, DialogKey::Char(' ')), EditKeyAction::Confirm);
    assert_eq!(edit_key_action(st, Mods::Shift, DialogKey::BackTab), EditKeyAction::FocusPrevious);
}

#[test]
fn keys_edit_dialog_switch() {
    assert_eq!(edit_dialog_switch(OverlayKind::Edit, 1, 0), Some(OverlayKind::EditSelection));
    assert_eq!(edit_dialog_switch(OverlayKind::Add, 0, 0), None);
    assert_eq!(edit_dialog_switch(OverlayKind::EditSelection, 0, 0), Some(OverlayKind::Edit));
    assert_eq!(edit_dialog_switch(OverlayKind::EditSelection, 0, 2), None);
    assert_eq!(edit_dialog_switch(OverlayKind::Other, 3, 0), None);
}

#[test]
fn choices_indices_and_labels() {
    assert_eq!(kind_index(RegKind::HoldingRegister), 2);
    assert_eq!(kind_label(RegKind::DiscreteInput), "Discrete Input");
    assert_eq!(format_index(ValueType::F64), 11);
    assert_eq!(format_index(ValueType::Ascii), 0);
    assert_eq!(format_label(ValueType::Ascii), "ASCII");
    assert_eq!(endian_index(EndianCfg::Little), 1);
    assert_eq!(alignment_index(AlignmentCfg::Right), 0);
}

#[test]
fn choices_name_uniqueness() {
    let regs = vec!["a".to_string(), "b".to_string()];
    assert_eq!(
        register_name_error("b", Some("a"), false, &regs),
        Some("Name 'b' already in use".to_string())
    );
    assert_eq!(register_name_error("a", Some("a"), false, &regs), None);
    assert_eq!(register_name_error("b", None, false, &regs), None);
    assert_eq!(
        register_name_error("a", None, true, &regs),
        Some("Name 'a' already in use".to_string())
    );
    assert_eq!(register_name_error("c", None, true, &regs), None);
    assert_eq!(
        tab_name_error("a", &regs),
        Some("Name 'a' already in use by another tab".to_string())
    );
    assert_eq!(tab_name_error("z", &regs), None);
}

#[test]
fn keys_edit_dialog_for_named_values() {
    use_edit_dialog_for();
}

fn use_edit_dialog_for() {
    assert_eq!(ferrowl::dialog_keys::edit_dialog_for(0), OverlayKind::Edit);
    assert_eq!(ferrowl::dialog_keys::edit_dialog_for(3), OverlayKind::EditSelection);
    assert_eq!(edit_dialog_switch(ferrowl::dialog_keys::edit_dialog_for(3), 3, 3), None);
}
