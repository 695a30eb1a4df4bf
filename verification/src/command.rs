//! Parser for the vim-style `:` command line (pure: execution lives with the application).
use vstd::prelude::*;

use crate::text::{
    append, copy_words, chars_of, is, is_char, is_ws_pred, join, join_vec, lower, lower_vec, seqs, slice,
    split_once_by, split_once_char, split_once_ws, string_of, trim, trim_chars, trim_start,
    trim_start_chars, words, words_vec,
};

verus! {

/// A parsed command-line command.
#[derive(Debug, PartialEq, Eq)]
pub enum Cmd {
    Quit,
    QuitAll,
    Edit,
    New,
    Load(Option<String>),
    Start,
    Stop,
    Restart,
    Lua(LuaCommand),
    SetRegister { register: String, value: String },
    Write(Option<String>),
    WriteDevice(Option<String>),
    Log(Option<String>),
    Add,
    Compact,
    Reload,
    Order { column: Option<String>, descending: bool },
    Unknown(String),
    Empty,
}

/// Sub-command of `:lua`: start or stop the module's Lua simulation.
#[derive(Debug, PartialEq, Eq, Clone, Copy)]
pub enum LuaCommand {
    Start,
    Stop,
}

/// The mathematical model of a `Cmd`: the same shape with strings as character sequences.
pub ghost enum CmdView {
    Quit,
    QuitAll,
    Edit,
    New,
    Load(Option<Seq<char>>),
    Start,
    Stop,
    Restart,
    Lua(LuaCommand),
    SetRegister { register: Seq<char>, value: Seq<char> },
    Write(Option<Seq<char>>),
    WriteDevice(Option<Seq<char>>),
    Log(Option<Seq<char>>),
    Add,
    Compact,
    Reload,
    Order { column: Option<Seq<char>>, descending: bool },
    Unknown(Seq<char>),
    Empty,
}

/// The characters of an optional string.
pub open spec fn opt_view(o: Option<String>) -> Option<Seq<char>> {
    match o {
        Some(s) => Some(s@),
        None => None,
    }
}

impl View for Cmd {
    type V = CmdView;

    open spec fn view(&self) -> CmdView {
        match self {
            Cmd::Quit => CmdView::Quit,
            Cmd::QuitAll => CmdView::QuitAll,
            Cmd::Edit => CmdView::Edit,
            Cmd::New => CmdView::New,
            Cmd::Load(p) => CmdView::Load(opt_view(*p)),
            Cmd::Start => CmdView::Start,
            Cmd::Stop => CmdView::Stop,
            Cmd::Restart => CmdView::Restart,
            Cmd::Lua(l) => CmdView::Lua(*l),
            Cmd::SetRegister { register, value } => CmdView::SetRegister { register: register@, value: value@ },
            Cmd::Write(p) => CmdView::Write(opt_view(*p)),
            Cmd::WriteDevice(p) => CmdView::WriteDevice(opt_view(*p)),
            Cmd::Log(p) => CmdView::Log(opt_view(*p)),
            Cmd::Add => CmdView::Add,
            Cmd::Compact => CmdView::Compact,
            Cmd::Reload => CmdView::Reload,
            Cmd::Order { column, descending } => CmdView::Order {
                column: opt_view(*column),
                descending: *descending,
            },
            Cmd::Unknown(s) => CmdView::Unknown(s@),
            Cmd::Empty => CmdView::Empty,
        }
    }
}

/// The `(register, value)` split of a `:set` argument string: a leading double quote lets the
/// register name hold whitespace (an unterminated quote takes the whole remainder); otherwise the
/// register is the first token. The value loses its leading whitespace.
pub open spec fn spec_parse_set(rest: Seq<char>) -> (Seq<char>, Seq<char>) {
    if rest.len() > 0 && rest[0] == '"' {
        let after = rest.drop_first();
        match split_once_by(after, is_char('"')) {
            Some((reg, val)) => (reg, trim_start(val)),
            None => (after, Seq::<char>::empty()),
        }
    } else {
        match split_once_by(rest, is_ws_pred()) {
            Some((reg, val)) => (reg, trim_start(val)),
            None => (rest, Seq::<char>::empty()),
        }
    }
}

/// The text after the `set` token: everything past the first whitespace that follows the
/// (start-trimmed) command, itself start-trimmed.
pub open spec fn spec_set_rest(s: Seq<char>) -> Seq<char> {
    trim_start(
        match split_once_by(trim_start(s), is_ws_pred()) {
            Some((_, r)) => r,
            None => Seq::<char>::empty(),
        },
    )
}

/// The `:order` arguments: a trailing `asc`/`desc` (any case) sets the direction and is
/// dropped; the remaining words, joined by single spaces, name the column.
pub open spec fn spec_order(args: Seq<Seq<char>>) -> CmdView {
    let (cols, descending) = if args.len() > 0 {
        let l = lower(args.last());
        if l == "asc"@ {
            (args.drop_last(), false)
        } else if l == "desc"@ {
            (args.drop_last(), true)
        } else {
            (args, false)
        }
    } else {
        (args, false)
    };
    CmdView::Order {
        column: if cols.len() == 0 {
            None
        } else {
            Some(join(cols, " "@))
        },
        descending,
    }
}

/// What a command line (without the leading `:`) means.
pub open spec fn spec_parse(s: Seq<char>) -> CmdView {
    let ws = words(s);
    if ws.len() == 0 {
        CmdView::Empty
    } else {
        let name = ws[0];
        let args = ws.skip(1);
        let first = if args.len() > 0 {
            Some(args[0])
        } else {
            None
        };
        if name == "q"@ || name == "q!"@ || name == "quit"@ {
            CmdView::Quit
        } else if name == "qa"@ || name == "qa!"@ || name == "qall"@ {
            CmdView::QuitAll
        } else if name == "e"@ || name == "edit"@ {
            CmdView::Edit
        } else if name == "n"@ || name == "new"@ {
            CmdView::New
        } else if name == "l"@ || name == "load"@ {
            CmdView::Load(first)
        } else if name == "start"@ {
            CmdView::Start
        } else if name == "stop"@ {
            CmdView::Stop
        } else if name == "restart"@ {
            CmdView::Restart
        } else if name == "lua"@ {
            if first == Some("start"@) {
                CmdView::Lua(LuaCommand::Start)
            } else if first == Some("stop"@) {
                CmdView::Lua(LuaCommand::Stop)
            } else {
                CmdView::Unknown(trim("lua "@ + join(args, " "@)))
            }
        } else if name == "set"@ {
            let (register, value) = spec_parse_set(spec_set_rest(s));
            CmdView::SetRegister { register, value }
        } else if name == "s"@ || name == "save"@ || name == "w"@ || name == "write"@ {
            CmdView::Write(first)
        } else if name == "wd"@ || name == "write-device"@ {
            CmdView::WriteDevice(first)
        } else if name == "log"@ {
            CmdView::Log(first)
        } else if name == "a"@ || name == "add"@ {
            CmdView::Add
        } else if name == "compact"@ {
            CmdView::Compact
        } else if name == "reload"@ {
            CmdView::Reload
        } else if name == "order"@ {
            spec_order(args)
        } else {
            CmdView::Unknown(name)
        }
    }
}

/// Split a `:set` argument string into `(register, value)`.
pub fn parse_set(rest: &[char]) -> (r: Cmd)
    ensures
        r@ == (CmdView::SetRegister {
            register: spec_parse_set(rest@).0,
            value: spec_parse_set(rest@).1,
        }),
{
    let (register, value) = if rest.len() > 0 && rest[0] == '"' {
        let n = rest.len();
        let after = slice(rest, 1, n);
        assert(after@ =~= rest@.drop_first());
        match split_once_char(&after, '"') {
            Some((reg, val)) => (reg, trim_start_chars(&val)),
            None => {
                let e: Vec<char> = Vec::new();
                assert(e@ =~= Seq::<char>::empty());
                (after, e)
            },
        }
    } else {
        match split_once_ws(rest) {
            Some((reg, val)) => (reg, trim_start_chars(&val)),
            None => {
                let e: Vec<char> = Vec::new();
                assert(e@ =~= Seq::<char>::empty());
                (slice(rest, 0, rest.len()), e)
            },
        }
    };
    assert(rest@.subrange(0, rest@.len() as int) =~= rest@);
    Cmd::SetRegister { register: string_of(&register), value: string_of(&value) }
}

/// The first argument, if any, as an owned string.
fn first_arg(args: &Vec<Vec<char>>, from: usize) -> (r: Option<String>)
    requires
        from <= args@.len(),
    ensures
        opt_view(r) == (if args@.len() > from {
            Some(args@[from as int]@)
        } else {
            None
        }),
{
    if args.len() > from {
        Some(string_of(&args[from]))
    } else {
        None
    }
}

fn parse_order(ws: &Vec<Vec<char>>) -> (r: Cmd)
    requires
        ws@.len() >= 1,
    ensures
        r@ == spec_order(seqs(ws@).skip(1)),
{
    let ghost args = seqs(ws@).skip(1);
    let mut cols = copy_words(ws, 1);
    assert(seqs(cols@) =~= args);
    let mut descending = false;
    if cols.len() > 0 {
        let last = lower_vec(&cols[cols.len() - 1]);
        if is(&last, "asc") {
            let ghost c0 = seqs(cols@);
            cols.pop();
            assert(seqs(cols@) =~= c0.drop_last());
        } else if is(&last, "desc") {
            descending = true;
            let ghost c0 = seqs(cols@);
            cols.pop();
            assert(seqs(cols@) =~= c0.drop_last());
        }
    }
    let column = if cols.len() == 0 {
        None
    } else {
        let sep = crate::text::chars_of(" ");
        Some(string_of(&join_vec(&cols, &sep)))
    };
    Cmd::Order { column, descending }
}

/// Parse a command line (without the leading `:`).
pub fn parse(input: &str) -> (r: Cmd)
    ensures
        r@ == spec_parse(input@),
{
    let v = chars_of(input);
    let ws = words_vec(&v);
    if ws.len() == 0 {
        return Cmd::Empty;
    }
    let ghost args = seqs(ws@).skip(1);
    assert(seqs(ws@)[0] == ws@[0]@);
    let name = &ws[0];
    let first = first_arg(&ws, 1);
    assert(args.len() > 0 ==> args[0] == ws@[1]@);
    if is(name, "q") || is(name, "q!") || is(name, "quit") {
        Cmd::Quit
    } else if is(name, "qa") || is(name, "qa!") || is(name, "qall") {
        Cmd::QuitAll
    } else if is(name, "e") || is(name, "edit") {
        Cmd::Edit
    } else if is(name, "n") || is(name, "new") {
        Cmd::New
    } else if is(name, "l") || is(name, "load") {
        Cmd::Load(first)
    } else if is(name, "start") {
        Cmd::Start
    } else if is(name, "stop") {
        Cmd::Stop
    } else if is(name, "restart") {
        Cmd::Restart
    } else if is(name, "lua") {
        if ws.len() > 1 && is(&ws[1], "start") {
            Cmd::Lua(LuaCommand::Start)
        } else if ws.len() > 1 && is(&ws[1], "stop") {
            Cmd::Lua(LuaCommand::Stop)
        } else {
            let rest = copy_words(&ws, 1);
            assert(seqs(rest@) =~= args);
            let sep = chars_of(" ");
            let joined = join_vec(&rest, &sep);
            let mut text = chars_of("lua ");
            append(&mut text, &joined);
            Cmd::Unknown(string_of(&trim_chars(&text)))
        }
    } else if is(name, "set") {
        let t = trim_start_chars(&v);
        let after = match split_once_ws(&t) {
            Some((_, r)) => r,
            None => {
                let e: Vec<char> = Vec::new();
                assert(e@ =~= Seq::<char>::empty());
                e
            },
        };
        let rest = trim_start_chars(&after);
        parse_set(&rest)
    } else if is(name, "s") || is(name, "save") || is(name, "w") || is(name, "write") {
        Cmd::Write(first)
    } else if is(name, "wd") || is(name, "write-device") {
        Cmd::WriteDevice(first)
    } else if is(name, "log") {
        Cmd::Log(first)
    } else if is(name, "a") || is(name, "add") {
        Cmd::Add
    } else if is(name, "compact") {
        Cmd::Compact
    } else if is(name, "reload") {
        Cmd::Reload
    } else if is(name, "order") {
        parse_order(&ws)
    } else {
        Cmd::Unknown(string_of(name))
    }
}


/// The first word of a command line, its keyword.
pub open spec fn keyword(s: Seq<char>) -> Seq<char> {
    words(s)[0]
}

/// The second word of a command line, if any: the argument most commands take.
pub open spec fn first_word_arg(s: Seq<char>) -> Option<Seq<char>> {
    if words(s).len() > 1 {
        Some(words(s)[1])
    } else {
        None
    }
}

/// Lengths and leading characters of the command keywords, enough to tell any two apart.
proof fn lemma_keyword_literals()
    ensures
        "q"@.len() == 1 && "q"@[0] == 'q',
        "q!"@.len() == 2 && "q!"@[0] == 'q' && "q!"@[1] == '!',
        "quit"@.len() == 4 && "quit"@[0] == 'q' && "quit"@[1] == 'u',
        "qa"@.len() == 2 && "qa"@[0] == 'q' && "qa"@[1] == 'a',
        "qa!"@.len() == 3 && "qa!"@[0] == 'q',
        "qall"@.len() == 4 && "qall"@[0] == 'q' && "qall"@[1] == 'a',
        "e"@.len() == 1 && "e"@[0] == 'e',
        "edit"@.len() == 4 && "edit"@[0] == 'e',
        "n"@.len() == 1 && "n"@[0] == 'n',
        "new"@.len() == 3 && "new"@[0] == 'n',
        "l"@.len() == 1 && "l"@[0] == 'l',
        "load"@.len() == 4 && "load"@[0] == 'l',
        "start"@.len() == 5 && "start"@[0] == 's',
        "stop"@.len() == 4 && "stop"@[0] == 's' && "stop"@[1] == 't',
        "restart"@.len() == 7 && "restart"@[0] == 'r',
        "lua"@.len() == 3 && "lua"@[0] == 'l' && "lua"@[1] == 'u',
        "set"@.len() == 3 && "set"@[0] == 's',
        "s"@.len() == 1 && "s"@[0] == 's',
        "save"@.len() == 4 && "save"@[0] == 's' && "save"@[1] == 'a',
        "w"@.len() == 1 && "w"@[0] == 'w',
        "write"@.len() == 5 && "write"@[0] == 'w',
        "wd"@.len() == 2 && "wd"@[0] == 'w',
        "write-device"@.len() == 12,
        "log"@.len() == 3 && "log"@[0] == 'l' && "log"@[1] == 'o',
        "a"@.len() == 1 && "a"@[0] == 'a',
        "add"@.len() == 3 && "add"@[0] == 'a',
        "compact"@.len() == 7 && "compact"@[0] == 'c',
        "reload"@.len() == 6,
        "order"@.len() == 5 && "order"@[0] == 'o',
{
    reveal_strlit("q");
    reveal_strlit("q!");
    reveal_strlit("quit");
    reveal_strlit("qa");
    reveal_strlit("qa!");
    reveal_strlit("qall");
    reveal_strlit("e");
    reveal_strlit("edit");
    reveal_strlit("n");
    reveal_strlit("new");
    reveal_strlit("l");
    reveal_strlit("load");
    reveal_strlit("start");
    reveal_strlit("stop");
    reveal_strlit("restart");
    reveal_strlit("lua");
    reveal_strlit("set");
    reveal_strlit("s");
    reveal_strlit("save");
    reveal_strlit("w");
    reveal_strlit("write");
    reveal_strlit("wd");
    reveal_strlit("write-device");
    reveal_strlit("log");
    reveal_strlit("a");
    reveal_strlit("add");
    reveal_strlit("compact");
    reveal_strlit("reload");
    reveal_strlit("order");
}

/// The saving commands keep apart: a line whose keyword is `wd` or `write-device` saves the
/// device configuration to its argument and is never a session save, and one whose keyword is
/// `w`, `write`, `s` or `save` saves the session to its argument and is never a device save.
pub proof fn lemma_save_keywords(s: Seq<char>)
    requires
        words(s).len() > 0,
    ensures
        (keyword(s) == "wd"@ || keyword(s) == "write-device"@) ==> spec_parse(s) == CmdView::WriteDevice(
            first_word_arg(s),
        ),
        (keyword(s) == "w"@ || keyword(s) == "write"@ || keyword(s) == "s"@ || keyword(s) == "save"@)
            ==> spec_parse(s) == CmdView::Write(first_word_arg(s)),
        spec_parse(s) is WriteDevice <==> (keyword(s) == "wd"@ || keyword(s) == "write-device"@),
        spec_parse(s) is Write <==> (keyword(s) == "w"@ || keyword(s) == "write"@ || keyword(s) == "s"@
            || keyword(s) == "save"@),
{
    lemma_keyword_literals();
}

/// Each command keyword selects its own command, and no other keyword selects it: the quit,
/// quit-all, edit, new, load, start, stop, restart, log, add, compact, reload, order, `set` and
/// `lua` commands each come from their own keywords (with their aliases) and from nothing else;
/// load and log take the line's first argument. A line with no words is the empty command.
pub proof fn lemma_keyword_selects_command(s: Seq<char>)
    ensures
        (words(s).len() == 0) <==> spec_parse(s) == CmdView::Empty,
        words(s).len() > 0 ==> {
            let k = keyword(s);
            &&& spec_parse(s) == CmdView::Quit <==> (k == "q"@ || k == "q!"@ || k == "quit"@)
            &&& spec_parse(s) == CmdView::QuitAll <==> (k == "qa"@ || k == "qa!"@ || k == "qall"@)
            &&& spec_parse(s) == CmdView::Edit <==> (k == "e"@ || k == "edit"@)
            &&& spec_parse(s) == CmdView::New <==> (k == "n"@ || k == "new"@)
            &&& spec_parse(s) is Load <==> (k == "l"@ || k == "load"@)
            &&& (k == "l"@ || k == "load"@) ==> spec_parse(s) == CmdView::Load(first_word_arg(s))
            &&& spec_parse(s) == CmdView::Start <==> k == "start"@
            &&& spec_parse(s) == CmdView::Stop <==> k == "stop"@
            &&& spec_parse(s) == CmdView::Restart <==> k == "restart"@
            &&& spec_parse(s) is Lua ==> k == "lua"@
            &&& spec_parse(s) is SetRegister <==> k == "set"@
            &&& spec_parse(s) is Log <==> k == "log"@
            &&& k == "log"@ ==> spec_parse(s) == CmdView::Log(first_word_arg(s))
            &&& spec_parse(s) == CmdView::Add <==> (k == "a"@ || k == "add"@)
            &&& spec_parse(s) == CmdView::Compact <==> k == "compact"@
            &&& spec_parse(s) == CmdView::Reload <==> k == "reload"@
            &&& spec_parse(s) is Order <==> k == "order"@
        },
{
    lemma_keyword_literals();
    if words(s).len() > 0 {
        lemma_save_keywords(s);
    }
}

/// The argument of `:set` splits at its first whitespace: an unquoted register name without
/// whitespace, then the value as written after one space (the value may itself hold spaces).
pub proof fn lemma_set_splits_register_and_value(reg: Seq<char>, val: Seq<char>)
    requires
        reg.len() > 0,
        reg[0] != '"',
        forall|i: int| 0 <= i < reg.len() ==> !crate::text::is_ws(#[trigger] reg[i]),
        val.len() == 0 || !crate::text::is_ws(val[0]),
    ensures
        spec_parse_set(reg + seq![' '] + val) == (reg, val),
{
    let s = reg + seq![' '] + val;
    assert(s[0] == reg[0]);
    assert forall|i: int| 0 <= i < reg.len() implies !is_ws_pred()(#[trigger] s[i]) by {
        assert(s[i] == reg[i]);
    }
    assert(s[reg.len() as int] == ' ');
    crate::text::lemma_first_index(s, is_ws_pred(), reg.len() as int);
    assert(s.take(reg.len() as int) =~= reg);
    assert(s.skip(reg.len() as int + 1) =~= val);
    crate::text::lemma_lead_ws(val, 0);
    assert(trim_start(val) =~= val);
}

} // verus!
