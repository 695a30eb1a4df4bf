//! The raw column of the register table: register words shown as `[aaaa bbbb ...]` in
//! lowercase hex, and read back as one big-endian number.
use vstd::prelude::*;

use crate::num::{digit_char, digit_char_exec, parse_unsigned, parse_unsigned_exec};
use crate::text::{
    chars_of, is_ws, join, seqs, slice, string_of, trim, trim_chars, words, words_vec,
};

verus! {

/// `format!("{v:04x}")` of a 16-bit word: exactly four lowercase hex digits.
pub open spec fn hex4(v: u16) -> Seq<char> {
    seq![
        digit_char((v as int / 4096) % 16),
        digit_char((v as int / 256) % 16),
        digit_char((v as int / 16) % 16),
        digit_char(v as int % 16),
    ]
}

/// The hex words of `raw`.
pub open spec fn hex_words(raw: Seq<u16>) -> Seq<Seq<char>> {
    Seq::new(raw.len(), |i: int| hex4(raw[i]))
}

/// The raw column text of register words `raw`.
pub open spec fn spec_raw_hex(raw: Seq<u16>) -> Seq<char> {
    seq!['['] + join(hex_words(raw), seq![' ']) + seq![']']
}

fn push_hex4(out: &mut Vec<char>, v: u16)
    ensures
        final(out)@ == old(out)@ + hex4(v),
{
    let ghost o = out@;
    out.push(digit_char_exec(((v / 4096) % 16) as u32));
    out.push(digit_char_exec(((v / 256) % 16) as u32));
    out.push(digit_char_exec(((v / 16) % 16) as u32));
    out.push(digit_char_exec((v % 16) as u32));
    assert(out@ =~= o + hex4(v));
}

/// Format register words as `[aaaa bbbb ...]` lowercase hex for the table's raw column.
pub fn raw_hex(raw: &[u16]) -> (r: String)
    ensures
        r@ == spec_raw_hex(raw@),
{
    let mut out: Vec<char> = Vec::new();
    out.push('[');
    let mut i: usize = 0;
    assert(hex_words(raw@).take(0) =~= Seq::<Seq<char>>::empty());
    while i < raw.len()
        invariant
            i <= raw@.len(),
            out@ == seq!['['] + join(hex_words(raw@).take(i as int), seq![' ']),
        decreases raw.len() - i,
    {
        let ghost pre = hex_words(raw@).take(i as int);
        let ghost nxt = hex_words(raw@).take(i + 1);
        assert(nxt.drop_last() =~= pre);
        assert(nxt.last() == hex4(raw@[i as int]));
        if i > 0 {
            out.push(' ');
        }
        push_hex4(&mut out, raw[i]);
        assert(out@ =~= seq!['['] + join(nxt, seq![' ']));
        i += 1;
    }
    assert(hex_words(raw@).take(i as int) =~= hex_words(raw@));
    out.push(']');
    string_of(&out)
}

/// The text between the brackets of a raw column value (after trimming), if it has them.
pub open spec fn spec_raw_inner(s: Seq<char>) -> Option<Seq<char>> {
    let t = trim(s);
    if t.len() >= 1 && t[0] == '[' {
        let u = t.drop_first();
        if u.len() >= 1 && u.last() == ']' {
            Some(u.drop_last())
        } else {
            None
        }
    } else {
        None
    }
}

/// The words read as hex numbers and combined most significant first, each shifting the
/// previous ones up by 16 bits (within 64 bits); `None` when a word is not a 64-bit hex
/// number.
pub open spec fn spec_fold_words(ws: Seq<Seq<char>>) -> Option<u64>
    decreases ws.len(),
{
    if ws.len() == 0 {
        Some(0u64)
    } else {
        match spec_fold_words(ws.drop_last()) {
            None => None,
            Some(r) => match parse_unsigned(ws.last(), 16, u64::MAX as int) {
                None => None,
                Some(x) => Some((r << 16u64) | (x as u64)),
            },
        }
    }
}

pub open spec fn spec_parse_raw_value(s: Seq<char>) -> Option<i64> {
    match spec_raw_inner(s) {
        None => None,
        Some(inner) => match spec_fold_words(words(inner)) {
            None => None,
            Some(r) => Some(r as i64),
        },
    }
}

/// Parse a raw memory string like `[00a0 0001]` into an `i64` (big-endian word combination).
pub fn parse_raw_value(raw: &str) -> (r: Option<i64>)
    ensures
        r == spec_parse_raw_value(raw@),
{
    let v = chars_of(raw);
    let t = trim_chars(&v);
    if t.len() == 0 || t[0] != '[' {
        return None;
    }
    if t.len() < 2 || t[t.len() - 1] != ']' {
        return None;
    }
    let inner = slice(&t, 1, t.len() - 1);
    proof {
        let u = t@.drop_first();
        assert(u.last() == t@[t@.len() - 1]);
        assert(inner@ =~= u.drop_last());
    }
    assert(spec_raw_inner(raw@) == Some(inner@));
    let ws = words_vec(&inner);
    let mut result: u64 = 0;
    let mut i: usize = 0;
    assert(seqs(ws@).take(0) =~= Seq::<Seq<char>>::empty());
    while i < ws.len()
        invariant
            i <= ws@.len(),
            spec_raw_inner(raw@) == Some(inner@),
            seqs(ws@) == words(inner@),
            spec_fold_words(seqs(ws@).take(i as int)) == Some(result),
        decreases ws.len() - i,
    {
        let ghost nxt = seqs(ws@).take(i + 1);
        assert(nxt.drop_last() =~= seqs(ws@).take(i as int));
        assert(nxt.last() == ws@[i as int]@);
        match parse_unsigned_exec(&ws[i], 16, u64::MAX as u128) {
            None => {
                proof {
                    lemma_fold_none_persists(seqs(ws@), i + 1);
                    assert(seqs(ws@).take(ws@.len() as int) =~= seqs(ws@));
                }
                return None;
            },
            Some(x) => {
                result = (result << 16u64) | (x as u64);
            },
        }
        i += 1;
    }
    assert(seqs(ws@).take(i as int) =~= seqs(ws@));
    Some(
        #[verifier::truncate]
        (result as i64),
    )
}

/// Once a word fails, the whole value fails.
pub proof fn lemma_fold_none_persists(ws: Seq<Seq<char>>, k: int)
    requires
        0 <= k <= ws.len(),
        spec_fold_words(ws.take(k)) is None,
    ensures
        spec_fold_words(ws.take(ws.len() as int)) is None,
    decreases ws.len() - k,
{
    if k < ws.len() {
        assert(ws.take(k + 1).drop_last() =~= ws.take(k));
        lemma_fold_none_persists(ws, k + 1);
    }
}

// ---------------------------------------------------------------------------------------------
// Reading back what is shown.
// ---------------------------------------------------------------------------------------------

/// The words combined most significant first into 64 bits.
pub open spec fn combine_words(raw: Seq<u16>) -> u64
    decreases raw.len(),
{
    if raw.len() == 0 {
        0u64
    } else {
        (combine_words(raw.drop_last()) << 16u64) | (raw.last() as u64)
    }
}

pub open spec fn no_ws(w: Seq<char>) -> bool {
    forall|i: int| 0 <= i < w.len() ==> !is_ws(#[trigger] w[i])
}

/// Appending a word after whitespace (or at the start) adds it as one more word.
pub proof fn lemma_words_append_word(a: Seq<char>, w: Seq<char>)
    requires
        w.len() > 0,
        no_ws(w),
        a.len() == 0 || is_ws(a.last()),
    ensures
        words(a + w) == words(a).push(w),
    decreases w.len(),
{
    let s = a + w;
    if w.len() == 1 {
        assert(s.drop_last() =~= a);
        assert(w =~= seq![w[0]]);
        if s.len() >= 2 {
            assert(s[s.len() - 2] == a.last());
        }
    } else {
        let w2 = w.drop_last();
        assert(s.drop_last() =~= a + w2);
        lemma_words_append_word(a, w2);
        assert(s[s.len() - 2] == w2.last());
        assert(!is_ws(w2[w2.len() - 1]));
        assert(!is_ws(w[w.len() - 1]));
        let wa = words(a);
        assert(words(a + w2) == wa.push(w2));
        assert(w2.push(w.last()) =~= w);
        assert(wa.push(w2).update(wa.len() as int, w2.push(w.last())) =~= wa.push(w));
    }
}

/// Joining whitespace-free, non-empty words with single spaces and splitting the result at
/// whitespace gives the words back.
pub proof fn lemma_words_of_join(ws: Seq<Seq<char>>)
    requires
        forall|i: int| 0 <= i < ws.len() ==> (#[trigger] ws[i]).len() > 0 && no_ws(ws[i]),
    ensures
        words(join(ws, seq![' '])) == ws,
    decreases ws.len(),
{
    if ws.len() == 0 {
    } else if ws.len() == 1 {
        lemma_words_append_word(Seq::<char>::empty(), ws[0]);
        assert(Seq::<char>::empty() + ws[0] =~= ws[0]);
        assert(Seq::<Seq<char>>::empty().push(ws[0]) =~= ws);
    } else {
        let dl = ws.drop_last();
        lemma_words_of_join(dl);
        let a = join(dl, seq![' ']) + seq![' '];
        assert(a.last() == ' ');
        assert(words(a) == words(join(dl, seq![' ']))) by {
            assert(a.drop_last() =~= join(dl, seq![' ']));
        }
        assert(ws[ws.len() - 1] == ws.last());
        lemma_words_append_word(a, ws.last());
        assert(dl.push(ws.last()) =~= ws);
    }
}

/// Four hex digits read back as the word they show.
pub proof fn lemma_hex4_parses(v: u16)
    ensures
        parse_unsigned(hex4(v), 16, u64::MAX as int) == Some(v as int),
{
    let h = hex4(v);
    let a = (v as int / 4096) % 16;
    let b = (v as int / 256) % 16;
    let c = (v as int / 16) % 16;
    let d = v as int % 16;
    assert(crate::num::unsigned_body(h) == h);
    assert(crate::num::digit_value(digit_char(a), 16) == a);
    assert(crate::num::digit_value(digit_char(b), 16) == b);
    assert(crate::num::digit_value(digit_char(c), 16) == c);
    assert(crate::num::digit_value(digit_char(d), 16) == d);
    assert(crate::num::all_digits(h, 16));
    let h3 = h.drop_last();
    let h2 = h3.drop_last();
    let h1 = h2.drop_last();
    assert(h1.drop_last() =~= Seq::<char>::empty());
    assert(h1.len() == 1 && h1.last() == digit_char(a));
    assert(h2.last() == digit_char(b));
    assert(h3.last() == digit_char(c));
    assert(h.last() == digit_char(d));
    assert(crate::num::digits_value(Seq::<char>::empty(), 16) == 0);
    assert(crate::num::digits_value(h1, 16) == a);
    assert(crate::num::digits_value(h2, 16) == a * 16 + b);
    assert(crate::num::digits_value(h3, 16) == (a * 16 + b) * 16 + c);
    assert(crate::num::digits_value(h, 16) == ((a * 16 + b) * 16 + c) * 16 + d);
    assert(((a * 16 + b) * 16 + c) * 16 + d == v) by (nonlinear_arith)
        requires
            a == (v as int / 4096) % 16,
            b == (v as int / 256) % 16,
            c == (v as int / 16) % 16,
            d == v as int % 16,
            0 <= v < 65536,
    ;
}

/// The words of a raw column value come back in order and are combined into one number.
pub proof fn lemma_fold_hex_words(raw: Seq<u16>)
    ensures
        spec_fold_words(hex_words(raw)) == Some(combine_words(raw)),
    decreases raw.len(),
{
    if raw.len() > 0 {
        let hw = hex_words(raw);
        assert(hw.drop_last() =~= hex_words(raw.drop_last()));
        lemma_fold_hex_words(raw.drop_last());
        lemma_hex4_parses(raw.last());
        assert(hw.last() == hex4(raw.last()));
    }
}

/// What the raw column shows reads back as the big-endian combination of the words it shows.
pub proof fn lemma_raw_hex_round_trip(raw: Seq<u16>)
    ensures
        spec_parse_raw_value(spec_raw_hex(raw)) == Some(combine_words(raw) as i64),
{
    let s = spec_raw_hex(raw);
    let inner = join(hex_words(raw), seq![' ']);
    assert(s[0] == '[');
    assert(s.last() == ']');
    assert(crate::text::lead_ws(s) == 0);
    assert(crate::text::trim_start(s) =~= s);
    assert(crate::text::trail_ws(s) == 0);
    assert(trim(s) =~= s);
    assert(s.drop_first().drop_last() =~= inner);
    assert forall|i: int| 0 <= i < hex_words(raw).len() implies (#[trigger] hex_words(raw)[i]).len()
        > 0 && no_ws(hex_words(raw)[i]) by {
        assert(hex_words(raw)[i] == hex4(raw[i]));
    }
    lemma_words_of_join(hex_words(raw));
    lemma_fold_hex_words(raw);
}

} // verus!
