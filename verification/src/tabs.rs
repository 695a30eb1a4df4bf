//! Key routing of the non-dialog panes (help overlay, window and tab chords, the `Ctrl+t`
//! digit jump), tab stepping, and the decisions of `:` commands and `:script copy`.
use vstd::prelude::*;

use crate::command::{Cmd, LuaCommand};
use crate::num::{decimal, push_decimal};
use crate::text::{append, chars_of, concat3, owned, string_of};

verus! {

/// A pending key chord.
#[derive(Debug, Clone, Copy, PartialEq, Eq, Structural)]
pub enum KeyMode {
    /// `Ctrl+w` was typed: `j`/`k` (or the arrows) switch pane.
    CtrlWin,
    /// `Ctrl+t` was typed: `l`/`h` step tabs, a digit jumps.
    CtrlTab,
    /// A first digit that may still start a two-digit tab index.
    TabDigit { first: usize },
}

/// Result of feeding one digit into the `Ctrl+t` tab-jump chord.
#[derive(Debug, Clone, Copy, PartialEq, Eq, Structural)]
pub enum DigitOutcome {
    /// The first digit could still start a valid two-digit index: hold it and wait.
    Wait(usize),
    /// Jump straight to this tab index.
    Jump(usize),
    /// No tab can match; drop the chord.
    Ignore,
}

pub open spec fn spec_digit_outcome(pending: Option<usize>, d: int, ntabs: int) -> DigitOutcome {
    match pending {
        None => if d != 0 && d * 10 < ntabs {
            DigitOutcome::Wait(d as usize)
        } else if d < ntabs {
            DigitOutcome::Jump(d as usize)
        } else {
            DigitOutcome::Ignore
        },
        Some(first) => {
            let idx = first * 10 + d;
            DigitOutcome::Jump(
                if idx < ntabs {
                    idx as usize
                } else {
                    first
                },
            )
        },
    }
}

/// What a newly typed digit `d` means for the tab-jump chord, given any `pending` first digit
/// and the number of tabs `ntabs`. A leading 0 never waits: every `0x` index is reachable as
/// `x`.
pub fn digit_outcome(pending: Option<usize>, d: usize, ntabs: usize) -> (r: DigitOutcome)
    requires
        d < 10,
        pending matches Some(f) ==> f < 10,
    ensures
        r == spec_digit_outcome(pending, d as int, ntabs as int),
{
    match pending {
        None => {
            if d != 0 && d * 10 < ntabs {
                DigitOutcome::Wait(d)
            } else if d < ntabs {
                DigitOutcome::Jump(d)
            } else {
                DigitOutcome::Ignore
            }
        },
        Some(first) => {
            let idx = first * 10 + d;
            DigitOutcome::Jump(
                if idx < ntabs {
                    idx
                } else {
                    first
                },
            )
        },
    }
}

/// A chord never lands outside the tabs: a first digit either jumps to an existing tab, or
/// waits only when it names an existing tab itself, and the second digit then jumps to an
/// existing tab.
pub proof fn lemma_digit_chord_lands_on_a_tab(d: int, e: int, ntabs: int)
    requires
        0 <= d < 10,
        0 <= e < 10,
        ntabs >= 0,
    ensures
        spec_digit_outcome(None, d, ntabs) matches DigitOutcome::Jump(i) ==> i < ntabs,
        spec_digit_outcome(None, d, ntabs) matches DigitOutcome::Wait(f) ==> f == d && f < ntabs
            && (spec_digit_outcome(Some(f), e, ntabs) matches DigitOutcome::Jump(i) && i
            < ntabs),
{
}

// ---------------------------------------------------------------------------------------------
// Tab stepping.
// ---------------------------------------------------------------------------------------------

/// The tab after `active`, wrapping around.
pub open spec fn spec_next_tab(active: int, n: int) -> int {
    if n == 0 {
        active
    } else {
        (active + 1) % n
    }
}

/// The tab before `active`, wrapping around.
pub open spec fn spec_prev_tab(active: int, n: int) -> int {
    if n == 0 {
        active
    } else {
        (active + n - 1) % n
    }
}

/// `idx` when it names another existing tab, else `active` (a silent no-op).
pub open spec fn spec_switch_tab(active: int, idx: int, n: int) -> int {
    if idx < n && idx != active {
        idx
    } else {
        active
    }
}

pub fn next_tab(active: usize, n: usize) -> (r: usize)
    requires
        n == 0 || active < n,
    ensures
        r == spec_next_tab(active as int, n as int),
{
    if n == 0 {
        active
    } else {
        (active + 1) % n
    }
}

pub fn prev_tab(active: usize, n: usize) -> (r: usize)
    requires
        n == 0 || active < n,
    ensures
        r == spec_prev_tab(active as int, n as int),
{
    proof {
        if n > 0 {
            lemma_tab_steps_round_trip(active as int, n as int);
            if active == 0 {
                vstd::arithmetic::div_mod::lemma_small_mod((n - 1) as nat, n as nat);
            } else {
                vstd::arithmetic::div_mod::lemma_mod_add_multiples_vanish(active - 1, n as int);
                vstd::arithmetic::div_mod::lemma_small_mod((active - 1) as nat, n as nat);
            }
        }
    }
    if n == 0 {
        active
    } else if active == 0 {
        n - 1
    } else {
        active - 1
    }
}

pub fn switch_tab(active: usize, idx: usize, n: usize) -> (r: usize)
    ensures
        r == spec_switch_tab(active as int, idx as int, n as int),
{
    if idx < n && idx != active {
        idx
    } else {
        active
    }
}

/// Stepping forward goes to the tab to the right, from the last tab back to the first;
/// stepping back goes to the tab to the left, from the first tab round to the last.
pub proof fn lemma_tab_steps_direction(active: int, n: int)
    requires
        0 <= active < n,
    ensures
        spec_next_tab(active, n) == (if active + 1 < n {
            active + 1
        } else {
            0
        }),
        spec_prev_tab(active, n) == (if active > 0 {
            active - 1
        } else {
            n - 1
        }),
{
    if active + 1 < n {
        vstd::arithmetic::div_mod::lemma_small_mod((active + 1) as nat, n as nat);
    } else {
        vstd::arithmetic::div_mod::lemma_mod_self_0(n);
    }
    if active == 0 {
        vstd::arithmetic::div_mod::lemma_small_mod((n - 1) as nat, n as nat);
    } else {
        vstd::arithmetic::div_mod::lemma_mod_add_multiples_vanish(active - 1, n);
        vstd::arithmetic::div_mod::lemma_small_mod((active - 1) as nat, n as nat);
    }
}

/// Stepping keeps the active tab among the tabs, and stepping back undoes stepping forward
/// (and the reverse).
pub proof fn lemma_tab_steps_round_trip(active: int, n: int)
    requires
        0 <= active < n,
    ensures
        0 <= spec_next_tab(active, n) < n,
        0 <= spec_prev_tab(active, n) < n,
        spec_prev_tab(spec_next_tab(active, n), n) == active,
        spec_next_tab(spec_prev_tab(active, n), n) == active,
{
    if active + 1 < n {
        vstd::arithmetic::div_mod::lemma_small_mod((active + 1) as nat, n as nat);
    } else {
        vstd::arithmetic::div_mod::lemma_mod_self_0(n);
    }
    if active == 0 {
        vstd::arithmetic::div_mod::lemma_small_mod((n - 1) as nat, n as nat);
    } else {
        vstd::arithmetic::div_mod::lemma_mod_add_multiples_vanish(active - 1, n);
        vstd::arithmetic::div_mod::lemma_small_mod((active - 1) as nat, n as nat);
    }
    let nx = spec_next_tab(active, n);
    let pv = spec_prev_tab(active, n);
    if nx == 0 {
        vstd::arithmetic::div_mod::lemma_small_mod((n - 1) as nat, n as nat);
    } else {
        vstd::arithmetic::div_mod::lemma_mod_add_multiples_vanish(nx - 1, n);
        vstd::arithmetic::div_mod::lemma_small_mod((nx - 1) as nat, n as nat);
    }
    if pv + 1 < n {
        vstd::arithmetic::div_mod::lemma_small_mod((pv + 1) as nat, n as nat);
    } else {
        vstd::arithmetic::div_mod::lemma_mod_self_0(n);
    }
}

// ---------------------------------------------------------------------------------------------
// Key routing of the non-dialog panes.
// ---------------------------------------------------------------------------------------------

/// The keys the routing distinguishes.
#[derive(Debug, Clone, Copy, PartialEq, Eq, Structural)]
pub enum NavKey {
    Esc,
    Up,
    Down,
    Char(char),
    Other,
}

/// What the application does after routing a key, besides the state change.
#[derive(Debug, Clone, Copy, PartialEq, Eq, Structural)]
pub enum NavAction {
    Nothing,
    /// Switch focus between the active tab's content and its log pane.
    TogglePane,
    /// Open the `:` command line.
    EnterCommand,
    /// Hand the key to the active tab.
    Forward,
    /// A first digit is held: arm the chord's timeout.
    AwaitSecondDigit,
}

/// The routing state: the help overlay and its scroll, the pending chord, the active tab
/// among `tab_count`, and whether the active tab shows an overlay of its own (which keeps
/// `:` and `?` for itself).
#[derive(Debug, Clone, Copy, PartialEq, Eq, Structural)]
pub struct NavState {
    pub help_open: bool,
    pub help_scroll: u16,
    pub keymode: Option<KeyMode>,
    pub active: usize,
    pub tab_count: usize,
    pub overlay_active: bool,
}

impl NavState {
    /// The active tab is one of the tabs, and a held digit is a digit.
    pub open spec fn wf(self) -> bool {
        &&& (self.tab_count == 0 || self.active < self.tab_count)
        &&& (self.keymode matches Some(KeyMode::TabDigit { first }) ==> first < 10)
    }
}

pub open spec fn is_digit(c: char) -> bool {
    '0' <= c && c <= '9'
}

pub open spec fn digit_of_char(c: char) -> int {
    c as int - '0' as int
}

/// The state and action after key `key` (with `ctrl` when Control alone is held).
pub open spec fn spec_nav(s: NavState, ctrl: bool, key: NavKey) -> (NavState, NavAction) {
    let n = s.tab_count as int;
    if s.help_open {
        let s2 = match key {
            NavKey::Esc | NavKey::Char('q') | NavKey::Char('?') => NavState {
                help_open: false,
                help_scroll: 0,
                ..s
            },
            NavKey::Char('j') | NavKey::Down => NavState {
                help_scroll: if s.help_scroll < u16::MAX {
                    (s.help_scroll + 1) as u16
                } else {
                    u16::MAX
                },
                ..s
            },
            NavKey::Char('k') | NavKey::Up => NavState {
                help_scroll: if s.help_scroll > 0 {
                    (s.help_scroll - 1) as u16
                } else {
                    0
                },
                ..s
            },
            NavKey::Char('g') => NavState { help_scroll: 0, ..s },
            NavKey::Char('G') => NavState { help_scroll: u16::MAX, ..s },
            _ => s,
        };
        (s2, NavAction::Nothing)
    } else {
        match (s.keymode, key) {
            (None, NavKey::Char('w')) if ctrl => (
                NavState { keymode: Some(KeyMode::CtrlWin), ..s },
                NavAction::Nothing,
            ),
            (Some(KeyMode::CtrlWin), NavKey::Char('j'))
            | (Some(KeyMode::CtrlWin), NavKey::Down)
            | (Some(KeyMode::CtrlWin), NavKey::Char('k'))
            | (Some(KeyMode::CtrlWin), NavKey::Up) => (
                NavState { keymode: None, ..s },
                NavAction::TogglePane,
            ),
            (None, NavKey::Char('t')) if ctrl => (
                NavState { keymode: Some(KeyMode::CtrlTab), ..s },
                NavAction::Nothing,
            ),
            (Some(KeyMode::CtrlTab), NavKey::Char('l')) => (
                NavState {
                    keymode: None,
                    active: spec_next_tab(s.active as int, n) as usize,
                    ..s
                },
                NavAction::Nothing,
            ),
            (Some(KeyMode::CtrlTab), NavKey::Char('h')) => (
                NavState {
                    keymode: None,
                    active: spec_prev_tab(s.active as int, n) as usize,
                    ..s
                },
                NavAction::Nothing,
            ),
            (Some(KeyMode::CtrlTab), NavKey::Char(c)) if is_digit(c) => match spec_digit_outcome(
                None,
                digit_of_char(c),
                n,
            ) {
                DigitOutcome::Wait(first) => (
                    NavState { keymode: Some(KeyMode::TabDigit { first }), ..s },
                    NavAction::AwaitSecondDigit,
                ),
                DigitOutcome::Jump(idx) => (
                    NavState {
                        keymode: None,
                        active: spec_switch_tab(s.active as int, idx as int, n) as usize,
                        ..s
                    },
                    NavAction::Nothing,
                ),
                DigitOutcome::Ignore => (NavState { keymode: None, ..s }, NavAction::Nothing),
            },
            (Some(KeyMode::TabDigit { first }), NavKey::Char(c)) if is_digit(c) => {
                let active = match spec_digit_outcome(Some(first), digit_of_char(c), n) {
                    DigitOutcome::Jump(idx) => spec_switch_tab(s.active as int, idx as int, n),
                    _ => s.active as int,
                };
                (NavState { keymode: None, active: active as usize, ..s }, NavAction::Nothing)
            },
            (None, NavKey::Char(':')) if !s.overlay_active => (s, NavAction::EnterCommand),
            (None, NavKey::Char('?')) if !s.overlay_active => (
                NavState { help_open: true, ..s },
                NavAction::Nothing,
            ),
            _ => {
                let active = match s.keymode {
                    Some(KeyMode::TabDigit { first }) => spec_switch_tab(
                        s.active as int,
                        first as int,
                        n,
                    ),
                    _ => s.active as int,
                };
                (NavState { keymode: None, active: active as usize, ..s }, NavAction::Forward)
            },
        }
    }
}

fn char_digit(c: char) -> (d: usize)
    requires
        is_digit(c),
    ensures
        d == digit_of_char(c),
        d < 10,
{
    (c as u32 - '0' as u32) as usize
}

impl NavState {
    /// Route one key of the non-dialog panes. The help overlay is modal and eats every key.
    pub fn handle_nav_key(&mut self, ctrl: bool, key: NavKey) -> (r: NavAction)
        requires
            old(self).wf(),
        ensures
            final(self).wf(),
            (*final(self), r) == spec_nav(*old(self), ctrl, key),
    {
        let n = self.tab_count;
        if self.help_open {
            match key {
                NavKey::Esc | NavKey::Char('q') | NavKey::Char('?') => {
                    self.help_open = false;
                    self.help_scroll = 0;
                },
                NavKey::Char('j') | NavKey::Down => {
                    self.help_scroll = if self.help_scroll < u16::MAX {
                        self.help_scroll + 1
                    } else {
                        u16::MAX
                    };
                },
                NavKey::Char('k') | NavKey::Up => {
                    self.help_scroll = if self.help_scroll > 0 {
                        self.help_scroll - 1
                    } else {
                        0
                    };
                },
                NavKey::Char('g') => {
                    self.help_scroll = 0;
                },
                NavKey::Char('G') => {
                    self.help_scroll = u16::MAX;
                },
                _ => {},
            }
            return NavAction::Nothing;
        }
        match (self.keymode, key) {
            (None, NavKey::Char('w')) if ctrl => {
                self.keymode = Some(KeyMode::CtrlWin);
                NavAction::Nothing
            },
            (Some(KeyMode::CtrlWin), NavKey::Char('j'))
            | (Some(KeyMode::CtrlWin), NavKey::Down)
            | (Some(KeyMode::CtrlWin), NavKey::Char('k'))
            | (Some(KeyMode::CtrlWin), NavKey::Up) => {
                self.keymode = None;
                NavAction::TogglePane
            },
            (None, NavKey::Char('t')) if ctrl => {
                self.keymode = Some(KeyMode::CtrlTab);
                NavAction::Nothing
            },
            (Some(KeyMode::CtrlTab), NavKey::Char('l')) => {
                self.keymode = None;
                self.active = next_tab(self.active, n);
                NavAction::Nothing
            },
            (Some(KeyMode::CtrlTab), NavKey::Char('h')) => {
                self.keymode = None;
                self.active = prev_tab(self.active, n);
                NavAction::Nothing
            },
            (Some(KeyMode::CtrlTab), NavKey::Char(c)) if '0' <= c && c <= '9' => {
                let d = char_digit(c);
                match digit_outcome(None, d, n) {
                    DigitOutcome::Wait(first) => {
                        self.keymode = Some(KeyMode::TabDigit { first });
                        NavAction::AwaitSecondDigit
                    },
                    DigitOutcome::Jump(idx) => {
                        self.keymode = None;
                        self.active = switch_tab(self.active, idx, n);
                        NavAction::Nothing
                    },
                    DigitOutcome::Ignore => {
                        self.keymode = None;
                        NavAction::Nothing
                    },
                }
            },
            (Some(KeyMode::TabDigit { first }), NavKey::Char(c)) if '0' <= c && c <= '9' => {
                let d = char_digit(c);
                self.keymode = None;
                match digit_outcome(Some(first), d, n) {
                    DigitOutcome::Jump(idx) => {
                        self.active = switch_tab(self.active, idx, n);
                    },
                    _ => {},
                }
                NavAction::Nothing
            },
            (None, NavKey::Char(':')) if !self.overlay_active => NavAction::EnterCommand,
            (None, NavKey::Char('?')) if !self.overlay_active => {
                self.help_open = true;
                NavAction::Nothing
            },
            _ => {
                match self.keymode {
                    Some(KeyMode::TabDigit { first }) => {
                        self.active = switch_tab(self.active, first, n);
                    },
                    _ => {},
                }
                self.keymode = None;
                NavAction::Forward
            },
        }
    }
}

// ---------------------------------------------------------------------------------------------
// `:` commands.
// ---------------------------------------------------------------------------------------------

/// Which tab `:script copy <idx>` copies from, or the message explaining why it cannot.
pub open spec fn spec_validate_copy_index(idx: Option<usize>, tab_count: int, active: int) -> Result<
    usize,
    Seq<char>,
> {
    match idx {
        None => Err("usage: :script copy <tab-index>"@),
        Some(i) => if i >= tab_count {
            Err(
                if tab_count >= 1 {
                    "no tab ["@ + decimal(i as nat) + "] (0..="@ + decimal((tab_count - 1) as nat)
                        + ")"@
                } else {
                    "no tab ["@ + decimal(i as nat) + "] (no tabs open)"@
                },
            )
        } else if i == active {
            Err("cannot copy from the active tab"@)
        } else {
            Ok(i)
        },
    }
}

/// A usable source tab index for `:script copy`, or the error text.
pub fn validate_copy_index(idx: Option<usize>, tab_count: usize, active: usize) -> (r: Result<
    usize,
    String,
>)
    ensures
        match r {
            Ok(i) => spec_validate_copy_index(idx, tab_count as int, active as int) == Ok::<
                _,
                Seq<char>,
            >(i),
            Err(e) => spec_validate_copy_index(idx, tab_count as int, active as int) == Err::<
                usize,
                _,
            >(e@),
        },
{
    let i = match idx {
        None => return Err(owned("usage: :script copy <tab-index>")),
        Some(i) => i,
    };
    if i >= tab_count {
        let mut msg = chars_of("no tab [");
        push_decimal(&mut msg, i as u128);
        if tab_count >= 1 {
            append(&mut msg, &chars_of("] (0..="));
            push_decimal(&mut msg, (tab_count - 1) as u128);
            append(&mut msg, &chars_of(")"));
        } else {
            append(&mut msg, &chars_of("] (no tabs open)"));
        }
        return Err(string_of(&msg));
    }
    if i == active {
        return Err(owned("cannot copy from the active tab"));
    }
    Ok(i)
}

/// What `:script copy` reports once the source tab `src` is known: the source has no script
/// list (`copied` is `None`), the active tab took the `copied` scripts (`accepted`), or it
/// has no script list either.
pub open spec fn spec_script_copy_report(src: usize, copied: Option<usize>, accepted: bool) -> Seq<
    char,
> {
    match copied {
        None => "tab ["@ + decimal(src as nat) + "] has no script support"@,
        Some(n) => if accepted {
            "Replaced scripts with "@ + decimal(n as nat) + " script(s) from tab ["@ + decimal(
                src as nat,
            ) + "]"@
        } else {
            "active module has no script support"@
        },
    }
}

pub fn script_copy_report(src: usize, copied: Option<usize>, accepted: bool) -> (r: String)
    ensures
        r@ == spec_script_copy_report(src, copied, accepted),
{
    match copied {
        None => {
            let mut msg = chars_of("tab [");
            push_decimal(&mut msg, src as u128);
            append(&mut msg, &chars_of("] has no script support"));
            string_of(&msg)
        },
        Some(n) => {
            if accepted {
                let mut msg = chars_of("Replaced scripts with ");
                push_decimal(&mut msg, n as u128);
                append(&mut msg, &chars_of(" script(s) from tab ["));
                push_decimal(&mut msg, src as u128);
                append(&mut msg, &chars_of("]"));
                string_of(&msg)
            } else {
                owned("active module has no script support")
            }
        },
    }
}

/// What the application does for a parsed `:` command.
#[derive(Debug)]
pub enum CommandPlan {
    Nothing,
    /// Quit the application.
    Quit,
    /// Stop the active module, remove its tab, and make `new_active` the active tab.
    CloseTab { new_active: usize },
    /// Open the setup dialog of the active module.
    Setup,
    /// Open the add-register dialog.
    Add,
    /// Open the new-module dialog.
    New,
    /// Open the new-module dialog pre-filled with a device path.
    Load(Option<String>),
    Start,
    Stop,
    Restart,
    Lua(LuaCommand),
    /// Write `value` to `register` of the active module.
    SetValue { register: String, value: String },
    /// Log this message on the active tab.
    Report(String),
    /// Save the session to this path.
    SaveSession(String),
    /// Save the active device config to this path (the active tab's own when `None`).
    SaveDevice(Option<String>),
    /// Log every module to files based on this path.
    LogTo(String),
    Compact,
    Reload,
    Order { column: Option<String>, descending: bool },
}

/// The plan for command `cmd` with `tab_count` tabs, `active` being the active one.
pub fn command_plan(cmd: Cmd, tab_count: usize, active: usize) -> (r: CommandPlan)
    requires
        tab_count == 0 || active < tab_count,
    ensures
        match cmd {
            Cmd::Empty => r is Nothing,
            Cmd::Quit => if tab_count <= 1 {
                r is Quit
            } else {
                r == CommandPlan::CloseTab {
                    new_active: if active < tab_count - 2 {
                        active
                    } else {
                        (tab_count - 2) as usize
                    },
                }
            },
            Cmd::QuitAll => r is Quit,
            Cmd::Edit => r is Setup,
            Cmd::Add => r is Add,
            Cmd::New => r is New,
            Cmd::Load(p) => r == CommandPlan::Load(p),
            Cmd::Start => r is Start,
            Cmd::Stop => r is Stop,
            Cmd::Restart => r is Restart,
            Cmd::Lua(l) => r == CommandPlan::Lua(l),
            Cmd::SetRegister { register, value } => if register@.len() == 0 || value@.len()
                == 0 {
                r matches CommandPlan::Report(m) && m@ == ":set requires <register> <value>"@
            } else {
                r == (CommandPlan::SetValue { register, value })
            },
            Cmd::Write(p) => r matches CommandPlan::SaveSession(path) && path@ == match p {
                Some(p) => p@,
                None => "session.toml"@,
            },
            Cmd::WriteDevice(p) => r == CommandPlan::SaveDevice(p),
            Cmd::Log(f) => match f {
                Some(f) => r == CommandPlan::LogTo(f),
                None => r matches CommandPlan::Report(m) && m@ == ":log requires <file>"@,
            },
            Cmd::Compact => r is Compact,
            Cmd::Reload => r is Reload,
            Cmd::Order { column, descending } => r == (CommandPlan::Order { column, descending }),
            Cmd::Unknown(name) => r matches CommandPlan::Report(m) && m@ == "Unknown command ':"@
                + name@ + "'"@,
        },
{
    match cmd {
        Cmd::Empty => CommandPlan::Nothing,
        Cmd::Quit => {
            if tab_count <= 1 {
                CommandPlan::Quit
            } else {
                let last = tab_count - 2;
                CommandPlan::CloseTab {
                    new_active: if active < last {
                        active
                    } else {
                        last
                    },
                }
            }
        },
        Cmd::QuitAll => CommandPlan::Quit,
        Cmd::Edit => CommandPlan::Setup,
        Cmd::Add => CommandPlan::Add,
        Cmd::New => CommandPlan::New,
        Cmd::Load(p) => CommandPlan::Load(p),
        Cmd::Start => CommandPlan::Start,
        Cmd::Stop => CommandPlan::Stop,
        Cmd::Restart => CommandPlan::Restart,
        Cmd::Lua(l) => CommandPlan::Lua(l),
        Cmd::SetRegister { register, value } => {
            if register.as_str().is_empty() || value.as_str().is_empty() {
                CommandPlan::Report(owned(":set requires <register> <value>"))
            } else {
                CommandPlan::SetValue { register, value }
            }
        },
        Cmd::Write(p) => CommandPlan::SaveSession(
            match p {
                Some(p) => p,
                None => owned("session.toml"),
            },
        ),
        Cmd::WriteDevice(p) => CommandPlan::SaveDevice(p),
        Cmd::Log(f) => match f {
            Some(f) => CommandPlan::LogTo(f),
            None => CommandPlan::Report(owned(":log requires <file>")),
        },
        Cmd::Compact => CommandPlan::Compact,
        Cmd::Reload => CommandPlan::Reload,
        Cmd::Order { column, descending } => CommandPlan::Order { column, descending },
        Cmd::Unknown(name) => CommandPlan::Report(
            concat3("Unknown command ':", &chars_of(name.as_str()), "'"),
        ),
    }
}

/// Closing a tab (when more than one is open) keeps the active tab among the remaining ones.
pub proof fn lemma_close_tab_keeps_active_in_range(tab_count: int, active: int)
    requires
        tab_count > 1,
        0 <= active < tab_count,
    ensures
        0 <= (if active < tab_count - 2 {
            active
        } else {
            tab_count - 2
        }) < tab_count - 1,
{
}

} // verus!
