//! Decisions of the headless runner (`run`): which newly logged lines a tick drains from a
//! module's bounded log ring, whether lines were lost to ring overflow, whether a drained line
//! is a script error, and whether a start message reports a failure.
use vstd::prelude::*;

use crate::num::{decimal, push_decimal};
use crate::text::{append, chars_of, lower, lower_vec, same, slice, string_of};

verus! {

/// What one drain of a module's log does: `dropped` lines were lost to ring overflow (0 for
/// none), the window entries from `start` on are new, `hit_error` says whether one of them is
/// a script error that must stop the run, and `last_written` is the count to resume from.
#[derive(Debug, Clone, Copy, PartialEq, Eq, Structural)]
pub struct DrainPlan {
    pub dropped: u64,
    pub start: usize,
    pub hit_error: bool,
    pub last_written: u64,
}

/// `s` starts with `p`.
pub open spec fn has_prefix(s: Seq<char>, p: Seq<char>) -> bool {
    p.len() <= s.len() && s.take(p.len() as int) == p
}

/// A drained line is a script error when it starts with `[sim]`.
pub open spec fn is_sim_error(line: Seq<char>) -> bool {
    has_prefix(line, "[sim]"@)
}

/// Some window entry from `start` on is a script error.
pub open spec fn error_from(window: Seq<(u64, String)>, start: int) -> bool {
    exists|i: int| start <= i < window.len() && #[trigger] is_sim_error(window[i].1@)
}

fn starts_with_sim(line: &String) -> (r: bool)
    ensures
        r == is_sim_error(line@),
{
    let v = chars_of(line.as_str());
    let p = chars_of("[sim]");
    if p.len() > v.len() {
        return false;
    }
    let head = slice(&v, 0, p.len());
    assert(head@ =~= v@.take(p@.len() as int));
    same(&head, &p)
}

/// Plan a drain of a log ring that has `written` lines in total and currently shows `window`
/// (its most recent lines, oldest first), `last_written` of them having been drained before.
/// Counting goes by the total, so a line repeated verbatim is still drained each time.
pub fn plan_drain(written: u64, last_written: u64, window: &Vec<(u64, String)>, exit_on_error: bool) -> (r:
    DrainPlan)
    ensures
        ({
            let new_count: int = if written >= last_written {
                written - last_written
            } else {
                0
            };
            let take: int = if new_count <= window@.len() {
                new_count
            } else {
                window@.len() as int
            };
            &&& r.last_written == written
            &&& r.dropped == (if new_count > window@.len() {
                new_count - window@.len()
            } else {
                0
            })
            &&& r.start == window@.len() - take
            &&& r.hit_error == (exit_on_error && error_from(window@, r.start as int))
        }),
{
    let new_count: u64 = if written >= last_written {
        written - last_written
    } else {
        0
    };
    let len = window.len();
    let dropped: u64 = if new_count > len as u64 {
        new_count - len as u64
    } else {
        0
    };
    let take: usize = if new_count <= len as u64 {
        new_count as usize
    } else {
        len
    };
    let start = len - take;
    let mut hit_error = false;
    if exit_on_error {
        let mut i = start;
        while i < len
            invariant
                start <= i <= len,
                len == window@.len(),
                hit_error == (exists|k: int| start <= k < i && #[trigger] is_sim_error(window@[k].1@)),
            decreases len - i,
        {
            if starts_with_sim(&window[i].1) {
                hit_error = true;
            }
            i += 1;
        }
    }
    DrainPlan { dropped, start, hit_error, last_written: written }
}

/// `s` holds `p` somewhere.
pub open spec fn contains_seq(s: Seq<char>, p: Seq<char>) -> bool {
    exists|i: int| 0 <= i && i + p.len() <= s.len() && #[trigger] s.subrange(i, i + p.len()) == p
}

/// A start message reports a failure when it mentions `failed`, in any ASCII case.
pub fn start_failed(msg: &str) -> (r: bool)
    ensures
        r == contains_seq(lower(msg@), "failed"@),
{
    let l = lower_vec(&chars_of(msg));
    let p = chars_of("failed");
    if l.len() < p.len() {
        return false;
    }
    proof {
        reveal_strlit("failed");
    }
    let mut i: usize = 0;
    let last = l.len() - p.len();
    while i <= last
        invariant
            p@ == "failed"@,
            l@ == lower(msg@),
            l@.len() >= p@.len(),
            l@.len() <= usize::MAX,
            p@.len() == 6,
            last == l@.len() - p@.len(),
            i <= last + 1,
            forall|k: int| 0 <= k < i ==> #[trigger] l@.subrange(k, k + p@.len()) != p@,
        decreases last + 1 - i,
    {
        let w = slice(&l, i, i + p.len());
        if same(&w, &p) {
            return true;
        }
        i += 1;
    }
    proof {
        assert forall|k: int| 0 <= k && k + p@.len() <= l@.len() implies #[trigger] l@.subrange(
            k,
            k + p@.len(),
        ) != p@ by {
            assert(k <= last);
        }
    }
    false
}

/// Exit code of a run that went to completion (its duration elapsed, or it was interrupted).
pub const EXIT_OK: i32 = 0;

/// Exit code of a run that could not set its modules up (a device config failed to load, a
/// start reported a failure, the log file could not be opened).
pub const EXIT_SETUP_FAILED: i32 = 1;

/// Exit code of a run stopped, after every module was stopped, by a drained error line (a
/// script error) with `--exit-on-error`.
pub const EXIT_SCRIPT_ERROR: i32 = 3;

/// What a module's reply to `start` means: a reply that reports a failure aborts the run with
/// `'<name>': <reply>`; any other reply is logged on the module; no reply, nothing.
pub fn start_outcome(name: &str, reply: Option<String>) -> (r: Result<Option<String>, String>)
    ensures
        match reply {
            None => r == Ok::<Option<String>, String>(None),
            Some(msg) => if contains_seq(lower(msg@), "failed"@) {
                r matches Err(e) && e@ == "'"@ + name@ + "': "@ + msg@
            } else {
                r == Ok::<Option<String>, String>(Some(msg))
            },
        },
{
    match reply {
        None => Ok(None),
        Some(msg) => {
            if start_failed(msg.as_str()) {
                let mut e = chars_of("'");
                append(&mut e, &chars_of(name));
                append(&mut e, &chars_of("': "));
                append(&mut e, &chars_of(msg.as_str()));
                Err(string_of(&e))
            } else {
                Ok(Some(msg))
            }
        },
    }
}

/// After a tick has drained every module: a drained script error stops the run with
/// `EXIT_SCRIPT_ERROR` (3); else a passed deadline stops it with `EXIT_OK` (0); else it goes on
/// (`None`).
pub fn after_tick(hit_error: bool, deadline_passed: bool) -> (r: Option<i32>)
    ensures
        r == (if hit_error {
            Some(3i32)
        } else if deadline_passed {
            Some(0i32)
        } else {
            None::<i32>
        }),
{
    if hit_error {
        Some(EXIT_SCRIPT_ERROR)
    } else if deadline_passed {
        Some(EXIT_OK)
    } else {
        None
    }
}

/// One drained log line as the runner prints it: `[<stamp>] <name> | <msg>`.
pub open spec fn spec_drain_line(stamp: Seq<char>, name: Seq<char>, msg: Seq<char>) -> Seq<char> {
    "["@ + stamp + "] "@ + name + " | "@ + msg
}

/// The lines a drain prints: first, when lines were lost, a marker stamped `now_stamp` that
/// says how many; then each new window entry from `start` on, stamped with its own stamp.
pub open spec fn spec_drain_lines(
    name: Seq<char>,
    dropped: u64,
    start: int,
    window: Seq<(u64, String)>,
    now_stamp: Seq<char>,
    stamps: Seq<String>,
) -> Seq<Seq<char>> {
    let marker: Seq<Seq<char>> = if dropped > 0 {
        seq![
            spec_drain_line(
                now_stamp,
                name,
                "("@ + decimal(dropped as nat) + " lines dropped: ring overflowed between ticks)"@,
            ),
        ]
    } else {
        Seq::empty()
    };
    marker + Seq::new(
        (window.len() - start) as nat,
        |i: int| spec_drain_line(stamps[start + i]@, name, window[start + i].1@),
    )
}

/// The layout of what a drain prints for module `name`: when lines were lost, first one
/// marker line `[<now>] <name> | (<n> lines dropped: ring overflowed between ticks)`; then, one
/// per new window entry and in window order, `[<stamp>] <name> | <message>` with that entry's
/// own stamp and message; nothing else.
pub proof fn lemma_drain_lines_layout(
    name: Seq<char>,
    dropped: u64,
    start: int,
    window: Seq<(u64, String)>,
    now_stamp: Seq<char>,
    stamps: Seq<String>,
)
    requires
        0 <= start <= window.len(),
        stamps.len() == window.len(),
    ensures
        ({
            let ls = spec_drain_lines(name, dropped, start, window, now_stamp, stamps);
            let off: int = if dropped > 0 {
                1
            } else {
                0
            };
            &&& ls.len() == off + window.len() - start
            &&& dropped > 0 ==> ls[0] == "["@ + now_stamp + "] "@ + name + " | "@ + ("("@ + decimal(
                dropped as nat,
            ) + " lines dropped: ring overflowed between ticks)"@)
            &&& forall|k: int|
                0 <= k < window.len() - start ==> #[trigger] ls[off + k] == "["@ + stamps[start
                    + k]@ + "] "@ + name + " | "@ + window[start + k].1@
        }),
{
}

fn drain_line(stamp: &str, name: &str, msg: &str) -> (r: String)
    ensures
        r@ == spec_drain_line(stamp@, name@, msg@),
{
    let mut l = chars_of("[");
    append(&mut l, &chars_of(stamp));
    append(&mut l, &chars_of("] "));
    append(&mut l, &chars_of(name));
    append(&mut l, &chars_of(" | "));
    append(&mut l, &chars_of(msg));
    string_of(&l)
}

/// The lines a drain planned by `plan` prints for module `name`: the lost-lines marker
/// (stamped `now_stamp`) first when lines were lost, then the new entries of `window` in
/// order, each stamped with its entry of `stamps` (the formatted timestamp of the window entry
/// at the same position).
pub fn drain_lines(
    name: &str,
    plan: &DrainPlan,
    window: &Vec<(u64, String)>,
    now_stamp: &str,
    stamps: &Vec<String>,
) -> (r: Vec<String>)
    requires
        stamps@.len() == window@.len(),
        plan.start <= window@.len(),
    ensures
        r@.map_values(|l: String| l@) == spec_drain_lines(
            name@,
            plan.dropped,
            plan.start as int,
            window@,
            now_stamp@,
            stamps@,
        ),
{
    let mut out: Vec<String> = Vec::new();
    if plan.dropped > 0 {
        let mut m = chars_of("(");
        push_decimal(&mut m, plan.dropped as u128);
        append(&mut m, &chars_of(" lines dropped: ring overflowed between ticks)"));
        let msg = string_of(&m);
        out.push(drain_line(now_stamp, name, msg.as_str()));
    }
    let ghost head = out@.map_values(|l: String| l@);
    let ghost full = spec_drain_lines(
        name@,
        plan.dropped,
        plan.start as int,
        window@,
        now_stamp@,
        stamps@,
    );
    let ghost tail = Seq::new(
        (window@.len() - plan.start) as nat,
        |i: int| spec_drain_line(stamps@[plan.start + i]@, name@, window@[plan.start + i].1@),
    );
    assert(full == head + tail);
    let mut i = plan.start;
    while i < window.len()
        invariant
            plan.start <= i <= window@.len(),
            stamps@.len() == window@.len(),
            full == head + tail,
            tail.len() == window@.len() - plan.start,
            forall|k: int|
                0 <= k < tail.len() ==> #[trigger] tail[k] == spec_drain_line(
                    stamps@[plan.start + k]@,
                    name@,
                    window@[plan.start + k].1@,
                ),
            out@.map_values(|l: String| l@) == head + tail.take(i - plan.start),
        decreases window.len() - i,
    {
        let line = drain_line(stamps[i].as_str(), name, window[i].1.as_str());
        let ghost before = out@;
        assert(tail[i - plan.start] == line@);
        out.push(line);
        assert(out@.map_values(|l: String| l@) =~= before.map_values(|l: String| l@).push(
            line@,
        ));
        assert(tail.take(i + 1 - plan.start) =~= tail.take(i - plan.start).push(
            tail[i - plan.start],
        ));
        assert(out@.map_values(|l: String| l@) =~= head + tail.take(i + 1 - plan.start));
        i += 1;
    }
    assert(tail.take(i - plan.start) =~= tail);
    out
}

} // verus!
