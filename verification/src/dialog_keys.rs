//! Key routing of the modal dialogs. In the script dialogs (the session's scripts and a
//! device's scripts): which of the stacked layers (help overlay, close-confirm popup,
//! delete-confirm popup, code editor, the dialog itself) gets a key, what the dialog does with
//! the keys that reach it, and how the focus cycles. In the register edit dialogs: where a key
//! goes, and which of the two edit dialogs shows.
use vstd::prelude::*;

use crate::dialog::{close_confirm_event, CloseConfirmEvent, ConfirmKey};

verus! {

/// A key as the script dialogs tell keys apart.
#[derive(Debug, Clone, Copy, PartialEq, Eq, Structural)]
pub enum DialogKey {
    Tab,
    BackTab,
    Esc,
    Enter,
    Char(char),
    Other,
}

/// The modifiers that came with a key: none, Shift alone, or anything else.
#[derive(Debug, Clone, Copy, PartialEq, Eq, Structural)]
pub enum Mods {
    Plain,
    Shift,
    Other,
}

/// The pane of a script dialog that has the focus. (The device script dialog has no interval
/// or log pane.)
#[derive(Debug, Clone, Copy, PartialEq, Eq, Structural)]
pub enum ScriptPane {
    Interval,
    Table,
    NameInput,
    Code,
    Log,
}

/// The panes of a script dialog in focus order: the session dialog's five, or the device
/// script dialog's three.
pub open spec fn pane_order(session: bool) -> Seq<ScriptPane> {
    if session {
        seq![
            ScriptPane::Interval,
            ScriptPane::Table,
            ScriptPane::NameInput,
            ScriptPane::Code,
            ScriptPane::Log,
        ]
    } else {
        seq![ScriptPane::Table, ScriptPane::NameInput, ScriptPane::Code]
    }
}

/// A pane the focus can rest on: one of the dialog's, and the code editor only while it is
/// enabled (a script is selected).
pub open spec fn pane_ok(p: ScriptPane, session: bool, code_enabled: bool) -> bool {
    pane_order(session).contains(p) && (p == ScriptPane::Code ==> code_enabled)
}

/// The pane after `p` in focus order, cyclically, passing over a disabled code editor.
pub open spec fn spec_next_pane(p: ScriptPane, session: bool, code_enabled: bool) -> ScriptPane {
    if session {
        match p {
            ScriptPane::Interval => ScriptPane::Table,
            ScriptPane::Table => ScriptPane::NameInput,
            ScriptPane::NameInput => if code_enabled {
                ScriptPane::Code
            } else {
                ScriptPane::Log
            },
            ScriptPane::Code => ScriptPane::Log,
            ScriptPane::Log => ScriptPane::Interval,
        }
    } else {
        match p {
            ScriptPane::Table => ScriptPane::NameInput,
            ScriptPane::NameInput => if code_enabled {
                ScriptPane::Code
            } else {
                ScriptPane::Table
            },
            _ => ScriptPane::Table,
        }
    }
}

/// The pane before `p` in focus order, cyclically, passing over a disabled code editor.
pub open spec fn spec_prev_pane(p: ScriptPane, session: bool, code_enabled: bool) -> ScriptPane {
    if session {
        match p {
            ScriptPane::Interval => ScriptPane::Log,
            ScriptPane::Table => ScriptPane::Interval,
            ScriptPane::NameInput => ScriptPane::Table,
            ScriptPane::Code => ScriptPane::NameInput,
            ScriptPane::Log => if code_enabled {
                ScriptPane::Code
            } else {
                ScriptPane::NameInput
            },
        }
    } else {
        match p {
            ScriptPane::Table => if code_enabled {
                ScriptPane::Code
            } else {
                ScriptPane::NameInput
            },
            ScriptPane::NameInput => ScriptPane::Table,
            _ => ScriptPane::NameInput,
        }
    }
}

/// Membership in the focus order, pane by pane.
proof fn lemma_pane_order(p: ScriptPane, session: bool)
    ensures
        pane_order(session).contains(p) == (session || (p != ScriptPane::Interval && p
            != ScriptPane::Log)),
{
    let o = pane_order(session);
    if session || (p != ScriptPane::Interval && p != ScriptPane::Log) {
        let k: int = if session {
            match p {
                ScriptPane::Interval => 0,
                ScriptPane::Table => 1,
                ScriptPane::NameInput => 2,
                ScriptPane::Code => 3,
                ScriptPane::Log => 4,
            }
        } else {
            match p {
                ScriptPane::Table => 0,
                ScriptPane::NameInput => 1,
                _ => 2,
            }
        };
        assert(o[k] == p);
    } else {
        assert forall|j: int| 0 <= j < o.len() implies o[j] != p by {}
    }
}

/// The pane after `p` in focus order (see `spec_next_pane`).
pub fn next_pane(p: ScriptPane, session: bool, code_enabled: bool) -> (r: ScriptPane)
    ensures
        r == spec_next_pane(p, session, code_enabled),
{
    if session {
        match p {
            ScriptPane::Interval => ScriptPane::Table,
            ScriptPane::Table => ScriptPane::NameInput,
            ScriptPane::NameInput => if code_enabled {
                ScriptPane::Code
            } else {
                ScriptPane::Log
            },
            ScriptPane::Code => ScriptPane::Log,
            ScriptPane::Log => ScriptPane::Interval,
        }
    } else {
        match p {
            ScriptPane::Table => ScriptPane::NameInput,
            ScriptPane::NameInput => if code_enabled {
                ScriptPane::Code
            } else {
                ScriptPane::Table
            },
            _ => ScriptPane::Table,
        }
    }
}

/// The pane before `p` in focus order (see `spec_prev_pane`).
pub fn prev_pane(p: ScriptPane, session: bool, code_enabled: bool) -> (r: ScriptPane)
    ensures
        r == spec_prev_pane(p, session, code_enabled),
{
    if session {
        match p {
            ScriptPane::Interval => ScriptPane::Log,
            ScriptPane::Table => ScriptPane::Interval,
            ScriptPane::NameInput => ScriptPane::Table,
            ScriptPane::Code => ScriptPane::NameInput,
            ScriptPane::Log => if code_enabled {
                ScriptPane::Code
            } else {
                ScriptPane::NameInput
            },
        }
    } else {
        match p {
            ScriptPane::Table => if code_enabled {
                ScriptPane::Code
            } else {
                ScriptPane::NameInput
            },
            ScriptPane::NameInput => ScriptPane::Table,
            _ => ScriptPane::NameInput,
        }
    }
}

/// Moving the focus forward goes to the next pane of the focus order, from the last back to
/// the first, and moving it back goes to the previous one, from the first round to the last;
/// while the code editor is disabled, a move that would land on it goes one pane further.
pub proof fn lemma_pane_moves_follow_order(session: bool, i: int)
    requires
        0 <= i < pane_order(session).len(),
    ensures
        ({
            let o = pane_order(session);
            let n = o.len() as int;
            &&& spec_next_pane(o[i], session, true) == o[(i + 1) % n]
            &&& spec_prev_pane(o[i], session, true) == o[(i + n - 1) % n]
            &&& o[(i + 1) % n] == ScriptPane::Code && o[i] != ScriptPane::Code ==> spec_next_pane(
                o[i],
                session,
                false,
            ) == o[(i + 2) % n]
            &&& o[(i + n - 1) % n] == ScriptPane::Code && o[i] != ScriptPane::Code
                ==> spec_prev_pane(o[i], session, false) == o[(i + n - 2) % n]
            &&& o[(i + 1) % n] != ScriptPane::Code ==> spec_next_pane(o[i], session, false) == o[(i
                + 1) % n]
            &&& o[(i + n - 1) % n] != ScriptPane::Code ==> spec_prev_pane(o[i], session, false)
                == o[(i + n - 1) % n]
        }),
{
    let o = pane_order(session);
    if session {
        assert(o.len() == 5);
        if i == 0 {
            assert((i + 1) % 5 == 1 && (i + 4) % 5 == 4 && (i + 2) % 5 == 2 && (i + 3) % 5 == 3);
        } else if i == 1 {
            assert((i + 1) % 5 == 2 && (i + 4) % 5 == 0 && (i + 2) % 5 == 3 && (i + 3) % 5 == 4);
        } else if i == 2 {
            assert((i + 1) % 5 == 3 && (i + 4) % 5 == 1 && (i + 2) % 5 == 4 && (i + 3) % 5 == 0);
        } else if i == 3 {
            assert((i + 1) % 5 == 4 && (i + 4) % 5 == 2 && (i + 2) % 5 == 0 && (i + 3) % 5 == 1);
        } else {
            assert((i + 1) % 5 == 0 && (i + 4) % 5 == 3 && (i + 2) % 5 == 1 && (i + 3) % 5 == 2);
        }
    } else {
        assert(o.len() == 3);
        if i == 0 {
            assert((i + 1) % 3 == 1 && (i + 2) % 3 == 2);
        } else if i == 1 {
            assert((i + 1) % 3 == 2 && (i + 2) % 3 == 0);
        } else {
            assert((i + 1) % 3 == 0 && (i + 2) % 3 == 1);
        }
    }
}

/// Moving the focus forward then back (or back then forward) returns to the same pane, and
/// the focus never lands on a disabled code editor.
pub proof fn lemma_pane_cycle_round_trip(p: ScriptPane, session: bool, code_enabled: bool)
    requires
        pane_ok(p, session, code_enabled),
    ensures
        pane_ok(spec_next_pane(p, session, code_enabled), session, code_enabled),
        pane_ok(spec_prev_pane(p, session, code_enabled), session, code_enabled),
        spec_prev_pane(spec_next_pane(p, session, code_enabled), session, code_enabled) == p,
        spec_next_pane(spec_prev_pane(p, session, code_enabled), session, code_enabled) == p,
{
    lemma_pane_order(p, session);
    lemma_pane_order(spec_next_pane(p, session, code_enabled), session);
    lemma_pane_order(spec_prev_pane(p, session, code_enabled), session);
}

/// What a script dialog shows when a key arrives.
#[derive(Debug, Clone, Copy, PartialEq, Eq, Structural)]
pub struct KeyState {
    pub help_open: bool,
    pub close_confirm_open: bool,
    pub delete_confirm_open: bool,
    pub focus: ScriptPane,
    /// The code editor is in its Normal mode (not Insert or Visual).
    pub code_normal_mode: bool,
}

/// What the delete-confirm popup does with a key.
#[derive(Debug, Clone, Copy, PartialEq, Eq, Structural)]
pub enum DeleteConfirmStep {
    /// Close the popup, deleting nothing.
    Dismiss,
    FocusNext,
    FocusPrevious,
    /// Close the popup and delete the selected script when its confirm button has the focus.
    Decide,
    /// Hand the key to the popup's own widgets.
    Forward,
}

/// What the dialog itself does with a key that no layer above it took.
#[derive(Debug, Clone, Copy, PartialEq, Eq, Structural)]
pub enum DialogAction {
    FocusNext,
    FocusPrevious,
    /// Open the close-confirm popup.
    OpenCloseConfirm,
    ToggleSelected,
    ToggleCompact,
    /// Ask to confirm deleting the selected script (when one is selected).
    AskDelete,
    /// Hand the key to the script table (and sync the editor to the new selection).
    TableKey,
    CreateScript,
    NameInputKey,
    IntervalKey,
    LogKey,
    /// Nothing: a key the code editor left unhandled.
    Ignore,
}

/// Who gets a key.
#[derive(Debug, Clone, Copy, PartialEq, Eq, Structural)]
pub enum KeyRoute {
    /// The open help overlay (which closes when it says so); nothing else happens.
    Help,
    /// The close-confirm popup, with its answer: the dialog closes on `Close`, the popup goes
    /// away on `Dismiss`.
    CloseConfirm(CloseConfirmEvent),
    /// The delete-confirm popup.
    DeleteConfirm(DeleteConfirmStep),
    /// Open the help overlay.
    OpenHelp,
    /// The code editor first; a key it leaves unhandled then goes to `dialog_action`.
    Editor,
    /// The dialog itself.
    Dialog(DialogAction),
}

/// Plain or Shift.
pub open spec fn plain_or_shift(mods: Mods) -> bool {
    mods == Mods::Plain || mods == Mods::Shift
}

/// What the dialog does with `key` when `focus` has the focus: plain Tab and (plain or
/// shifted) BackTab move the focus, plain Esc asks to close; the table toggles with `t`,
/// compacts with `c`, asks to delete with `d` and scrolls with anything else; Enter in the name
/// field creates a script; every other key goes to the focused widget.
pub open spec fn spec_dialog_action(focus: ScriptPane, mods: Mods, key: DialogKey) -> DialogAction {
    if mods == Mods::Plain && key == DialogKey::Tab {
        DialogAction::FocusNext
    } else if plain_or_shift(mods) && key == DialogKey::BackTab {
        DialogAction::FocusPrevious
    } else if mods == Mods::Plain && key == DialogKey::Esc {
        DialogAction::OpenCloseConfirm
    } else {
        match focus {
            ScriptPane::Interval => DialogAction::IntervalKey,
            ScriptPane::Table => if mods == Mods::Plain && key == DialogKey::Char('t') {
                DialogAction::ToggleSelected
            } else if mods == Mods::Plain && key == DialogKey::Char('c') {
                DialogAction::ToggleCompact
            } else if mods == Mods::Plain && key == DialogKey::Char('d') {
                DialogAction::AskDelete
            } else {
                DialogAction::TableKey
            },
            ScriptPane::NameInput => if mods == Mods::Plain && key == DialogKey::Enter {
                DialogAction::CreateScript
            } else {
                DialogAction::NameInputKey
            },
            ScriptPane::Code => DialogAction::Ignore,
            ScriptPane::Log => DialogAction::LogKey,
        }
    }
}

/// What the delete-confirm popup does with `key`.
pub open spec fn spec_delete_confirm_step(mods: Mods, key: DialogKey) -> DeleteConfirmStep {
    if mods == Mods::Plain && key == DialogKey::Esc {
        DeleteConfirmStep::Dismiss
    } else if mods == Mods::Plain && key == DialogKey::Tab {
        DeleteConfirmStep::FocusNext
    } else if plain_or_shift(mods) && key == DialogKey::BackTab {
        DeleteConfirmStep::FocusPrevious
    } else if mods == Mods::Plain && (key == DialogKey::Enter || key == DialogKey::Char(' ')) {
        DeleteConfirmStep::Decide
    } else {
        DeleteConfirmStep::Forward
    }
}

/// Who gets `key`: the help overlay while it is open; else the close-confirm popup while it is
/// open; else the delete-confirm popup while it is open; else `?` in the code editor's Normal
/// mode opens the help; else the code editor when it has the focus; else the dialog.
pub open spec fn spec_route_key(st: KeyState, mods: Mods, key: DialogKey) -> KeyRoute {
    if st.help_open {
        KeyRoute::Help
    } else if st.close_confirm_open {
        KeyRoute::CloseConfirm(
            if mods == Mods::Plain && (key == DialogKey::Enter || key == DialogKey::Char(' ')) {
                CloseConfirmEvent::Close
            } else if mods == Mods::Plain && key == DialogKey::Esc {
                CloseConfirmEvent::Dismiss
            } else {
                CloseConfirmEvent::Consumed
            },
        )
    } else if st.delete_confirm_open {
        KeyRoute::DeleteConfirm(spec_delete_confirm_step(mods, key))
    } else if st.focus == ScriptPane::Code && st.code_normal_mode && plain_or_shift(mods) && key
        == DialogKey::Char('?') {
        KeyRoute::OpenHelp
    } else if st.focus == ScriptPane::Code {
        KeyRoute::Editor
    } else {
        KeyRoute::Dialog(spec_dialog_action(st.focus, mods, key))
    }
}

/// The key bindings of a script dialog with no popup open and the focus off the code editor:
/// plain Tab moves the focus forward and BackTab back, plain Esc asks to close; on the table,
/// plain `t` toggles the selected script, `c` toggles the compact view and `d` asks to delete;
/// in the name field plain Enter creates a script. In the close-confirm popup plain Enter or
/// Space closes the dialog and plain Esc only closes the popup; in the delete-confirm popup
/// plain Esc dismisses it and plain Enter or Space decides.
pub proof fn lemma_dialog_key_bindings(st: KeyState)
    ensures
        !st.help_open && !st.close_confirm_open && !st.delete_confirm_open && st.focus
            != ScriptPane::Code ==> {
            &&& spec_route_key(st, Mods::Plain, DialogKey::Tab) == KeyRoute::Dialog(
                DialogAction::FocusNext,
            )
            &&& spec_route_key(st, Mods::Plain, DialogKey::BackTab) == KeyRoute::Dialog(
                DialogAction::FocusPrevious,
            )
            &&& spec_route_key(st, Mods::Shift, DialogKey::BackTab) == KeyRoute::Dialog(
                DialogAction::FocusPrevious,
            )
            &&& spec_route_key(st, Mods::Plain, DialogKey::Esc) == KeyRoute::Dialog(
                DialogAction::OpenCloseConfirm,
            )
            &&& st.focus == ScriptPane::Table ==> {
                &&& spec_route_key(st, Mods::Plain, DialogKey::Char('t')) == KeyRoute::Dialog(
                    DialogAction::ToggleSelected,
                )
                &&& spec_route_key(st, Mods::Plain, DialogKey::Char('c')) == KeyRoute::Dialog(
                    DialogAction::ToggleCompact,
                )
                &&& spec_route_key(st, Mods::Plain, DialogKey::Char('d')) == KeyRoute::Dialog(
                    DialogAction::AskDelete,
                )
            }
            &&& st.focus == ScriptPane::NameInput ==> spec_route_key(st, Mods::Plain, DialogKey::Enter)
                == KeyRoute::Dialog(DialogAction::CreateScript)
        },
        !st.help_open && st.close_confirm_open ==> {
            &&& spec_route_key(st, Mods::Plain, DialogKey::Enter) == KeyRoute::CloseConfirm(
                CloseConfirmEvent::Close,
            )
            &&& spec_route_key(st, Mods::Plain, DialogKey::Char(' ')) == KeyRoute::CloseConfirm(
                CloseConfirmEvent::Close,
            )
            &&& spec_route_key(st, Mods::Plain, DialogKey::Esc) == KeyRoute::CloseConfirm(
                CloseConfirmEvent::Dismiss,
            )
        },
        !st.help_open && !st.close_confirm_open && st.delete_confirm_open ==> {
            &&& spec_route_key(st, Mods::Plain, DialogKey::Esc) == KeyRoute::DeleteConfirm(
                DeleteConfirmStep::Dismiss,
            )
            &&& spec_route_key(st, Mods::Plain, DialogKey::Enter) == KeyRoute::DeleteConfirm(
                DeleteConfirmStep::Decide,
            )
            &&& spec_route_key(st, Mods::Plain, DialogKey::Char(' ')) == KeyRoute::DeleteConfirm(
                DeleteConfirmStep::Decide,
            )
        },
{
}

fn is_plain_or_shift(mods: Mods) -> (r: bool)
    ensures
        r == plain_or_shift(mods),
{
    match mods {
        Mods::Plain | Mods::Shift => true,
        Mods::Other => false,
    }
}

fn is_plain(mods: Mods) -> (r: bool)
    ensures
        r == (mods == Mods::Plain),
{
    match mods {
        Mods::Plain => true,
        _ => false,
    }
}

/// What the dialog does with a key that reached it (see `spec_dialog_action`).
pub fn dialog_action(focus: ScriptPane, mods: Mods, key: DialogKey) -> (r: DialogAction)
    ensures
        r == spec_dialog_action(focus, mods, key),
{
    let plain = is_plain(mods);
    match key {
        DialogKey::Tab if plain => return DialogAction::FocusNext,
        DialogKey::BackTab if is_plain_or_shift(mods) => return DialogAction::FocusPrevious,
        DialogKey::Esc if plain => return DialogAction::OpenCloseConfirm,
        _ => {},
    }
    match focus {
        ScriptPane::Interval => DialogAction::IntervalKey,
        ScriptPane::Table => match key {
            DialogKey::Char('t') if plain => DialogAction::ToggleSelected,
            DialogKey::Char('c') if plain => DialogAction::ToggleCompact,
            DialogKey::Char('d') if plain => DialogAction::AskDelete,
            _ => DialogAction::TableKey,
        },
        ScriptPane::NameInput => match key {
            DialogKey::Enter if plain => DialogAction::CreateScript,
            _ => DialogAction::NameInputKey,
        },
        ScriptPane::Code => DialogAction::Ignore,
        ScriptPane::Log => DialogAction::LogKey,
    }
}

/// Who gets a key (see `spec_route_key`).
pub fn route_key(st: KeyState, mods: Mods, key: DialogKey) -> (r: KeyRoute)
    ensures
        r == spec_route_key(st, mods, key),
{
    let plain = is_plain(mods);
    if st.help_open {
        return KeyRoute::Help;
    }
    if st.close_confirm_open {
        let k = match key {
            DialogKey::Enter => ConfirmKey::Enter,
            DialogKey::Esc => ConfirmKey::Esc,
            DialogKey::Char(c) => ConfirmKey::Char(c),
            _ => ConfirmKey::Other,
        };
        return KeyRoute::CloseConfirm(close_confirm_event(plain, k));
    }
    if st.delete_confirm_open {
        let step = match key {
            DialogKey::Esc if plain => DeleteConfirmStep::Dismiss,
            DialogKey::Tab if plain => DeleteConfirmStep::FocusNext,
            DialogKey::BackTab if is_plain_or_shift(mods) => DeleteConfirmStep::FocusPrevious,
            DialogKey::Enter if plain => DeleteConfirmStep::Decide,
            DialogKey::Char(' ') if plain => DeleteConfirmStep::Decide,
            _ => DeleteConfirmStep::Forward,
        };
        return KeyRoute::DeleteConfirm(step);
    }
    let in_code = match st.focus {
        ScriptPane::Code => true,
        _ => false,
    };
    if in_code {
        if st.code_normal_mode && is_plain_or_shift(mods) && key == DialogKey::Char('?') {
            return KeyRoute::OpenHelp;
        }
        return KeyRoute::Editor;
    }
    KeyRoute::Dialog(dialog_action(st.focus, mods, key))
}

/// While a layer is open, it takes every key: the layers below never see one.
pub proof fn lemma_open_layer_takes_every_key(st: KeyState, mods: Mods, key: DialogKey)
    ensures
        st.help_open ==> spec_route_key(st, mods, key) == KeyRoute::Help,
        !st.help_open && st.close_confirm_open ==> spec_route_key(st, mods, key) is CloseConfirm,
        !st.help_open && !st.close_confirm_open && st.delete_confirm_open ==> spec_route_key(
            st,
            mods,
            key,
        ) is DeleteConfirm,
        st.help_open || st.close_confirm_open || st.delete_confirm_open ==> !(spec_route_key(
            st,
            mods,
            key,
        ) is Dialog) && !(spec_route_key(st, mods, key) is Editor),
{
}

/// `?` typed into the code editor outside its Normal mode is text: it goes to the editor.
pub proof fn lemma_question_mark_is_text_outside_normal_mode(st: KeyState, mods: Mods)
    requires
        !st.help_open,
        !st.close_confirm_open,
        !st.delete_confirm_open,
        st.focus == ScriptPane::Code,
        !st.code_normal_mode,
    ensures
        spec_route_key(st, mods, DialogKey::Char('?')) == KeyRoute::Editor,
{
}

// ---------------------------------------------------------------------------------------------
// The register edit dialogs.
// ---------------------------------------------------------------------------------------------

/// Which modal dialog is open over the register table.
#[derive(Debug, Clone, Copy, PartialEq, Eq, Structural)]
pub enum OverlayKind {
    /// Editing a register that has named values (a selection of them).
    EditSelection,
    /// Editing a register with a free-form value.
    Edit,
    /// Adding a register.
    Add,
    /// Any other dialog.
    Other,
}

/// What an edit dialog shows when a key arrives.
#[derive(Debug, Clone, Copy, PartialEq, Eq, Structural)]
pub struct EditKeyState {
    pub overlay: OverlayKind,
    /// The add-named-value sub-dialog is open.
    pub sub_dialog_open: bool,
    /// The update-script code field has the focus.
    pub script_focused: bool,
    /// The confirm button has the focus.
    pub confirm_focused: bool,
}

/// What the add-named-value sub-dialog does with a key.
#[derive(Debug, Clone, Copy, PartialEq, Eq, Structural)]
pub enum SubDialogStep {
    Close,
    Confirm,
    FocusNext,
    FocusPrevious,
    Forward,
}

/// What happens to a key typed into an edit dialog.
#[derive(Debug, Clone, Copy, PartialEq, Eq, Structural)]
pub enum EditKeyAction {
    /// The open sub-dialog takes it.
    SubDialog(SubDialogStep),
    /// Close the dialog, applying nothing.
    CloseOverlay,
    /// Confirm the dialog (applied only when it validates).
    Confirm,
    /// Space on a focused choice of an edit dialog.
    Space,
    FocusNext,
    FocusPrevious,
    /// The dialog's focused widget takes it.
    Forward,
}

/// The route of a key in an edit dialog: an open sub-dialog takes every key (Esc closes it,
/// Enter confirms it, Tab and BackTab move its focus); else plain Esc closes the dialog, plain
/// Enter confirms it unless the script field has the focus (there it is a newline), plain Space
/// confirms on the confirm button and otherwise toggles the focused choice, Tab and BackTab move
/// the focus, and everything else goes to the focused widget.
pub open spec fn spec_edit_key_action(st: EditKeyState, mods: Mods, key: DialogKey) -> EditKeyAction {
    if st.sub_dialog_open && st.overlay != OverlayKind::Other {
        EditKeyAction::SubDialog(
            match key {
                DialogKey::Esc => SubDialogStep::Close,
                DialogKey::Enter => SubDialogStep::Confirm,
                DialogKey::Tab => SubDialogStep::FocusNext,
                DialogKey::BackTab => SubDialogStep::FocusPrevious,
                _ => SubDialogStep::Forward,
            },
        )
    } else if mods == Mods::Plain && key == DialogKey::Esc {
        EditKeyAction::CloseOverlay
    } else if mods == Mods::Plain && key == DialogKey::Enter {
        if st.script_focused {
            EditKeyAction::Forward
        } else {
            EditKeyAction::Confirm
        }
    } else if mods == Mods::Plain && key == DialogKey::Char(' ') {
        if st.confirm_focused {
            EditKeyAction::Confirm
        } else if st.overlay != OverlayKind::Other {
            EditKeyAction::Space
        } else {
            EditKeyAction::Forward
        }
    } else if plain_or_shift(mods) && key == DialogKey::BackTab {
        EditKeyAction::FocusPrevious
    } else if mods == Mods::Plain && key == DialogKey::Tab {
        EditKeyAction::FocusNext
    } else {
        EditKeyAction::Forward
    }
}

/// The route of a key in an edit dialog (see `spec_edit_key_action`).
pub fn edit_key_action(st: EditKeyState, mods: Mods, key: DialogKey) -> (r: EditKeyAction)
    ensures
        r == spec_edit_key_action(st, mods, key),
{
    let edit = match st.overlay {
        OverlayKind::Other => false,
        _ => true,
    };
    if st.sub_dialog_open && edit {
        let step = match key {
            DialogKey::Esc => SubDialogStep::Close,
            DialogKey::Enter => SubDialogStep::Confirm,
            DialogKey::Tab => SubDialogStep::FocusNext,
            DialogKey::BackTab => SubDialogStep::FocusPrevious,
            _ => SubDialogStep::Forward,
        };
        return EditKeyAction::SubDialog(step);
    }
    let plain = is_plain(mods);
    match key {
        DialogKey::Esc if plain => EditKeyAction::CloseOverlay,
        DialogKey::Enter if plain => if st.script_focused {
            EditKeyAction::Forward
        } else {
            EditKeyAction::Confirm
        },
        DialogKey::Char(' ') if plain => if st.confirm_focused {
            EditKeyAction::Confirm
        } else if edit {
            EditKeyAction::Space
        } else {
            EditKeyAction::Forward
        },
        DialogKey::BackTab if is_plain_or_shift(mods) => EditKeyAction::FocusPrevious,
        DialogKey::Tab if plain => EditKeyAction::FocusNext,
        _ => EditKeyAction::Forward,
    }
}

/// The dialog shown after a key: a free-form edit (or add) dialog that now has pending named
/// values becomes a selection dialog, and a selection dialog whose named values are all gone
/// becomes a free-form edit dialog; otherwise `None` (no change).
pub open spec fn spec_edit_dialog_switch(
    overlay: OverlayKind,
    pending_named_values: usize,
    selection_values: usize,
) -> Option<OverlayKind> {
    match overlay {
        OverlayKind::Edit | OverlayKind::Add => if pending_named_values > 0 {
            Some(OverlayKind::EditSelection)
        } else {
            None
        },
        OverlayKind::EditSelection => if selection_values == 0 {
            Some(OverlayKind::Edit)
        } else {
            None
        },
        OverlayKind::Other => None,
    }
}

/// The dialog shown after a key (see `spec_edit_dialog_switch`).
pub fn edit_dialog_switch(overlay: OverlayKind, pending_named_values: usize, selection_values: usize) -> (r:
    Option<OverlayKind>)
    ensures
        r == spec_edit_dialog_switch(overlay, pending_named_values, selection_values),
{
    match overlay {
        OverlayKind::Edit | OverlayKind::Add => if pending_named_values > 0 {
            Some(OverlayKind::EditSelection)
        } else {
            None
        },
        OverlayKind::EditSelection => if selection_values == 0 {
            Some(OverlayKind::Edit)
        } else {
            None
        },
        OverlayKind::Other => None,
    }
}

/// The edit dialog opened for a register with `named_values` named values: the selection
/// dialog when it has any, else the free-form one.
pub open spec fn spec_edit_dialog_for(named_values: usize) -> OverlayKind {
    if named_values > 0 {
        OverlayKind::EditSelection
    } else {
        OverlayKind::Edit
    }
}

/// The edit dialog opened for a register with `named_values` named values.
pub fn edit_dialog_for(named_values: usize) -> (r: OverlayKind)
    ensures
        r == spec_edit_dialog_for(named_values),
{
    if named_values > 0 {
        OverlayKind::EditSelection
    } else {
        OverlayKind::Edit
    }
}

/// The dialog opened for a register is already the right one: the switch after a key leaves
/// it as it is until its named values change.
pub proof fn lemma_opened_dialog_is_stable(named_values: usize)
    ensures
        spec_edit_dialog_switch(spec_edit_dialog_for(named_values), named_values, named_values)
            is None,
{
}

} // verus!
