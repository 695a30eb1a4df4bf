//! The on-screen log: a fixed-capacity ring of timestamped lines. A line longer than
//! `LOG_MAX_LINE` characters is cut there; once `LOG_SIZE` lines are held, each new line evicts
//! the oldest. Lines are kept oldest first. (Mirroring lines to a file is the caller's I/O.)
use vstd::prelude::*;

use crate::text::{chars_of, slice, string_of};
use crate::time::now_unix_ms;

verus! {

/// The longest log line kept, in characters.
pub const LOG_MAX_LINE: usize = 256;

/// How many lines the ring holds.
pub const LOG_SIZE: usize = 80;

/// A log line as it is kept: `msg` cut to `LOG_MAX_LINE` characters.
pub open spec fn kept_line(msg: Seq<char>) -> Seq<char> {
    if msg.len() <= LOG_MAX_LINE {
        msg
    } else {
        msg.take(LOG_MAX_LINE as int)
    }
}

/// The ring's lines after one more line `e`: the most recent `LOG_SIZE` of them.
pub open spec fn ring_push(s: Seq<(u64, Seq<char>)>, e: (u64, Seq<char>)) -> Seq<(u64, Seq<char>)> {
    let t = s.push(e);
    if t.len() <= LOG_SIZE {
        t
    } else {
        t.skip(t.len() - LOG_SIZE)
    }
}

/// The ring's lines after the lines `es`, in order.
pub open spec fn ring_push_all(s: Seq<(u64, Seq<char>)>, es: Seq<(u64, Seq<char>)>) -> Seq<
    (u64, Seq<char>),
>
    decreases es.len(),
{
    if es.len() == 0 {
        s
    } else {
        ring_push(ring_push_all(s, es.drop_last()), es.last())
    }
}

/// The most recent `n` lines of `s` (all of them when it holds fewer), oldest first.
pub open spec fn last_n(s: Seq<(u64, Seq<char>)>, n: int) -> Seq<(u64, Seq<char>)> {
    if n >= s.len() {
        s
    } else {
        s.skip(s.len() - n)
    }
}

/// A fixed-capacity ring of `(timestamp in ms, line)` pairs.
pub struct LogRing {
    entries: Vec<(u64, String)>,
}

impl View for LogRing {
    type V = Seq<(u64, Seq<char>)>;

    closed spec fn view(&self) -> Seq<(u64, Seq<char>)> {
        self.entries@.map_values(|e: (u64, String)| (e.0, e.1@))
    }
}

impl LogRing {
    /// The ring holds at most `LOG_SIZE` lines.
    pub closed spec fn wf(&self) -> bool {
        self.entries@.len() <= LOG_SIZE
    }

    /// An empty log.
    pub fn init() -> (r: Self)
        ensures
            r.wf(),
            r@ == Seq::<(u64, Seq<char>)>::empty(),
    {
        let r = LogRing { entries: Vec::new() };
        assert(r@ =~= Seq::<(u64, Seq<char>)>::empty());
        r
    }

    /// Logs `msg` with timestamp `ts`.
    pub fn write_at(&mut self, ts: u64, msg: &str)
        requires
            old(self).wf(),
        ensures
            final(self).wf(),
            final(self)@ == ring_push(old(self)@, (ts, kept_line(msg@))),
    {
        let v = chars_of(msg);
        let n = if v.len() <= LOG_MAX_LINE {
            v.len()
        } else {
            LOG_MAX_LINE
        };
        let line = string_of(&slice(&v, 0, n));
        assert(line@ =~= kept_line(msg@));
        let ghost s = self@;
        let ghost e = (ts, kept_line(msg@));
        if self.entries.len() >= LOG_SIZE {
            self.entries.remove(0);
            self.entries.push((ts, line));
            assert(self@ =~= s.push(e).skip(s.push(e).len() - LOG_SIZE));
        } else {
            self.entries.push((ts, line));
            assert(self@ =~= s.push(e));
        }
    }

    /// Logs `msg` with the current time.
    pub fn write(&mut self, msg: &str)
        requires
            old(self).wf(),
        ensures
            final(self).wf(),
            exists|ts: u64| final(self)@ == ring_push(old(self)@, (ts, kept_line(msg@))),
    {
        let ts = now_unix_ms();
        self.write_at(ts, msg);
    }

    /// The most recent `n` lines, oldest first.
    pub fn peek_n(&self, n: usize) -> (r: Vec<(u64, String)>)
        ensures
            r@.map_values(|e: (u64, String)| (e.0, e.1@)) == last_n(self@, n as int),
    {
        let len = self.entries.len();
        let start = if n >= len {
            0
        } else {
            len - n
        };
        let mut r: Vec<(u64, String)> = Vec::new();
        let mut i = start;
        while i < len
            invariant
                start <= i <= len,
                len == self.entries@.len(),
                start == (if n >= len {
                    0
                } else {
                    len - n
                }),
                r@.map_values(|e: (u64, String)| (e.0, e.1@)) == self@.subrange(
                    start as int,
                    i as int,
                ),
            decreases len - i,
        {
            let e = &self.entries[i];
            let line = e.1.clone();
            assert(line@ == self@[i as int].1);
            let ghost before = r@.map_values(|e: (u64, String)| (e.0, e.1@));
            r.push((e.0, line));
            assert(r@.map_values(|e: (u64, String)| (e.0, e.1@)) =~= before.push(self@[i as int]));
            i += 1;
            assert(r@.map_values(|e: (u64, String)| (e.0, e.1@)) =~= self@.subrange(
                start as int,
                i as int,
            ));
        }
        assert(self@.subrange(start as int, len as int) =~= last_n(self@, n as int));
        r
    }

    /// Empties the log.
    pub fn clear(&mut self)
        ensures
            final(self).wf(),
            final(self)@ == Seq::<(u64, Seq<char>)>::empty(),
    {
        self.entries.clear();
        assert(self@ =~= Seq::<(u64, Seq<char>)>::empty());
    }

    /// How many lines the log holds.
    pub fn len(&self) -> (r: usize)
        ensures
            r == self@.len(),
    {
        self.entries.len()
    }
}

/// The ring keeps exactly the most recent `LOG_SIZE` lines written into it, oldest first.
pub proof fn lemma_ring_keeps_most_recent(es: Seq<(u64, Seq<char>)>)
    ensures
        ring_push_all(Seq::empty(), es) == last_n(es, LOG_SIZE as int),
    decreases es.len(),
{
    if es.len() > 0 {
        lemma_ring_keeps_most_recent(es.drop_last());
        let prev = last_n(es.drop_last(), LOG_SIZE as int);
        assert(ring_push(prev, es.last()) =~= last_n(es, LOG_SIZE as int));
    } else {
        assert(last_n(es, LOG_SIZE as int) =~= es);
    }
}

/// A line just written is the most recent line the log shows, as it was kept.
pub proof fn lemma_write_then_peek(s: Seq<(u64, Seq<char>)>, ts: u64, msg: Seq<char>)
    requires
        s.len() <= LOG_SIZE,
    ensures
        last_n(ring_push(s, (ts, kept_line(msg))), 1) == seq![(ts, kept_line(msg))],
        ring_push(s, (ts, kept_line(msg))).len() <= LOG_SIZE,
{
    let t = ring_push(s, (ts, kept_line(msg)));
    assert(last_n(t, 1) =~= seq![(ts, kept_line(msg))]);
}

} // verus!
