//! Character-sequence toolkit: the small set of `str` operations (trimming, splitting,
//! whitespace-separated words, joining, ASCII case folding) that the parsers of this crate
//! are written with, each stated over `Seq<char>` and implemented on `Vec<char>`.
use vstd::prelude::*;

verus! {

/// Unicode `White_Space` (the property `char::is_whitespace` and `str::trim` use).
pub open spec fn is_ws(c: char) -> bool {
    ||| c == '\t'
    ||| c == '\n'
    ||| c == '\u{0B}'
    ||| c == '\u{0C}'
    ||| c == '\r'
    ||| c == ' '
    ||| c == '\u{85}'
    ||| c == '\u{A0}'
    ||| c == '\u{1680}'
    ||| ('\u{2000}' <= c && c <= '\u{200A}')
    ||| c == '\u{2028}'
    ||| c == '\u{2029}'
    ||| c == '\u{202F}'
    ||| c == '\u{205F}'
    ||| c == '\u{3000}'
}

/// `char::is_whitespace`.
pub fn is_whitespace(c: char) -> (r: bool)
    ensures
        r == is_ws(c),
{
    c == '\t' || c == '\n' || c == '\u{0B}' || c == '\u{0C}' || c == '\r' || c == ' '
        || c == '\u{85}' || c == '\u{A0}' || c == '\u{1680}' || ('\u{2000}' <= c && c
        <= '\u{200A}') || c == '\u{2028}' || c == '\u{2029}' || c == '\u{202F}' || c
        == '\u{205F}' || c == '\u{3000}'
}

/// Number of whitespace characters at the front of `s`.
pub open spec fn lead_ws(s: Seq<char>) -> nat
    decreases s.len(),
{
    if s.len() > 0 && is_ws(s[0]) {
        1 + lead_ws(s.drop_first())
    } else {
        0
    }
}

/// Number of whitespace characters at the back of `s`.
pub open spec fn trail_ws(s: Seq<char>) -> nat
    decreases s.len(),
{
    if s.len() > 0 && is_ws(s.last()) {
        1 + trail_ws(s.drop_last())
    } else {
        0
    }
}

/// `str::trim_start`.
pub open spec fn trim_start(s: Seq<char>) -> Seq<char> {
    s.skip(lead_ws(s) as int)
}

/// `str::trim_end`.
pub open spec fn trim_end(s: Seq<char>) -> Seq<char> {
    s.take(s.len() - trail_ws(s))
}

/// `str::trim`.
pub open spec fn trim(s: Seq<char>) -> Seq<char> {
    trim_end(trim_start(s))
}

/// Every character of `s` is whitespace (so `trim(s)` is empty).
pub open spec fn all_ws(s: Seq<char>) -> bool {
    forall|i: int| 0 <= i < s.len() ==> is_ws(#[trigger] s[i])
}

pub proof fn lemma_lead_ws(s: Seq<char>, k: int)
    requires
        0 <= k <= s.len(),
        forall|i: int| 0 <= i < k ==> is_ws(#[trigger] s[i]),
        k == s.len() || !is_ws(s[k]),
    ensures
        lead_ws(s) == k,
    decreases k,
{
    if k > 0 {
        let t = s.drop_first();
        assert forall|i: int| 0 <= i < k - 1 implies is_ws(#[trigger] t[i]) by {
            assert(t[i] == s[i + 1]);
        }
        if k - 1 < t.len() {
            assert(t[k - 1] == s[k]);
        }
        lemma_lead_ws(t, k - 1);
    }
}

pub proof fn lemma_trail_ws(s: Seq<char>, k: int)
    requires
        0 <= k <= s.len(),
        forall|i: int| s.len() - k <= i < s.len() ==> is_ws(#[trigger] s[i]),
        k == s.len() || !is_ws(s[s.len() - k - 1]),
    ensures
        trail_ws(s) == k,
    decreases k,
{
    if k > 0 {
        let t = s.drop_last();
        assert forall|i: int| t.len() - (k - 1) <= i < t.len() implies is_ws(#[trigger] t[i]) by {
            assert(t[i] == s[i]);
        }
        if k - 1 < t.len() {
            assert(t[t.len() - (k - 1) - 1] == s[s.len() - k - 1]);
        }
        lemma_trail_ws(t, k - 1);
    }
}

pub proof fn lemma_lead_ws_bound(s: Seq<char>)
    ensures
        lead_ws(s) <= s.len(),
        forall|i: int| 0 <= i < lead_ws(s) ==> is_ws(#[trigger] s[i]),
        lead_ws(s) == s.len() || !is_ws(s[lead_ws(s) as int]),
    decreases s.len(),
{
    if s.len() > 0 && is_ws(s[0]) {
        let t = s.drop_first();
        lemma_lead_ws_bound(t);
        assert forall|i: int| 0 <= i < lead_ws(s) implies is_ws(#[trigger] s[i]) by {
            if i > 0 {
                assert(s[i] == t[i - 1]);
            }
        }
        if lead_ws(s) < s.len() {
            assert(s[lead_ws(s) as int] == t[lead_ws(t) as int]);
        }
    }
}

pub proof fn lemma_trail_ws_bound(s: Seq<char>)
    ensures
        trail_ws(s) <= s.len(),
        forall|i: int| s.len() - trail_ws(s) <= i < s.len() ==> is_ws(#[trigger] s[i]),
        trail_ws(s) == s.len() || !is_ws(s[s.len() - trail_ws(s) - 1]),
    decreases s.len(),
{
    if s.len() > 0 && is_ws(s.last()) {
        let t = s.drop_last();
        lemma_trail_ws_bound(t);
        assert forall|i: int| s.len() - trail_ws(s) <= i < s.len() implies is_ws(#[trigger] s[i]) by {
            if i < s.len() - 1 {
                assert(s[i] == t[i]);
            }
        }
        if trail_ws(s) < s.len() {
            assert(s[s.len() - trail_ws(s) - 1] == t[t.len() - trail_ws(t) - 1]);
        }
    }
}

/// `trim(s)` is empty exactly when `s` is all whitespace.
pub proof fn lemma_trim_empty(s: Seq<char>)
    ensures
        (trim(s).len() == 0) == all_ws(s),
{
    lemma_lead_ws_bound(s);
    let t = trim_start(s);
    lemma_trail_ws_bound(t);
    if all_ws(s) {
        lemma_lead_ws(s, s.len() as int);
    }
    if trim(s).len() == 0 {
        assert forall|i: int| 0 <= i < s.len() implies is_ws(#[trigger] s[i]) by {
            if i >= lead_ws(s) {
                assert(s[i] == t[i - lead_ws(s)]);
            }
        }
    }
}

/// A copy of `v[lo..hi]`.
pub fn slice(v: &[char], lo: usize, hi: usize) -> (r: Vec<char>)
    requires
        lo <= hi <= v@.len(),
    ensures
        r@ == v@.subrange(lo as int, hi as int),
{
    let mut r: Vec<char> = Vec::new();
    let mut i = lo;
    while i < hi
        invariant
            lo <= i <= hi <= v@.len(),
            r@ == v@.subrange(lo as int, i as int),
        decreases hi - i,
    {
        r.push(v[i]);
        i += 1;
        assert(r@ =~= v@.subrange(lo as int, i as int));
    }
    r
}

/// Number of leading whitespace characters of `v`.
pub fn lead_ws_len(v: &[char]) -> (k: usize)
    ensures
        k == lead_ws(v@),
{
    let mut k: usize = 0;
    while k < v.len() && is_whitespace(v[k])
        invariant
            k <= v@.len(),
            forall|i: int| 0 <= i < k ==> is_ws(#[trigger] v@[i]),
        decreases v.len() - k,
    {
        k += 1;
    }
    proof {
        lemma_lead_ws(v@, k as int);
    }
    k
}

/// Number of trailing whitespace characters of `v`.
pub fn trail_ws_len(v: &[char]) -> (k: usize)
    ensures
        k == trail_ws(v@),
{
    let n = v.len();
    let mut k: usize = 0;
    while k < n && is_whitespace(v[n - 1 - k])
        invariant
            n == v@.len(),
            k <= n,
            forall|i: int| n - k <= i < n ==> is_ws(#[trigger] v@[i]),
        decreases n - k,
    {
        k += 1;
    }
    proof {
        lemma_trail_ws(v@, k as int);
    }
    k
}

/// `str::trim_start`.
pub fn trim_start_chars(v: &[char]) -> (r: Vec<char>)
    ensures
        r@ == trim_start(v@),
{
    let k = lead_ws_len(v);
    proof {
        lemma_lead_ws_bound(v@);
    }
    slice(v, k, v.len())
}

/// `str::trim_end`.
pub fn trim_end_chars(v: &[char]) -> (r: Vec<char>)
    ensures
        r@ == trim_end(v@),
{
    let k = trail_ws_len(v);
    proof {
        lemma_trail_ws_bound(v@);
    }
    slice(v, 0, v.len() - k)
}

/// `str::trim`.
pub fn trim_chars(v: &[char]) -> (r: Vec<char>)
    ensures
        r@ == trim(v@),
{
    let a = trim_start_chars(v);
    trim_end_chars(&a)
}

/// Index of the first character satisfying `p`, or `-1`.
pub open spec fn first_index(s: Seq<char>, p: spec_fn(char) -> bool) -> int
    decreases s.len(),
{
    if s.len() == 0 {
        -1
    } else if p(s[0]) {
        0
    } else {
        let r = first_index(s.drop_first(), p);
        if r < 0 {
            -1
        } else {
            r + 1
        }
    }
}

pub open spec fn is_char(c: char) -> spec_fn(char) -> bool {
    |x: char| x == c
}

pub open spec fn is_ws_pred() -> spec_fn(char) -> bool {
    |x: char| is_ws(x)
}

pub proof fn lemma_first_index(s: Seq<char>, p: spec_fn(char) -> bool, k: int)
    requires
        0 <= k <= s.len(),
        forall|i: int| 0 <= i < k ==> !p(#[trigger] s[i]),
        k == s.len() || p(s[k]),
    ensures
        first_index(s, p) == (if k == s.len() {
            -1
        } else {
            k
        }),
    decreases k,
{
    if k > 0 {
        let t = s.drop_first();
        assert(!p(s[0]));
        assert forall|i: int| 0 <= i < k - 1 implies !p(#[trigger] t[i]) by {
            assert(t[i] == s[i + 1]);
        }
        if k < s.len() {
            assert(t[k - 1] == s[k]);
        }
        lemma_first_index(t, p, k - 1);
    }
}

pub proof fn lemma_first_index_bound(s: Seq<char>, p: spec_fn(char) -> bool)
    ensures
        -1 <= first_index(s, p) < s.len(),
        first_index(s, p) >= 0 ==> p(s[first_index(s, p)]),
        forall|i: int|
            0 <= i < s.len() && (first_index(s, p) < 0 || i < first_index(s, p)) ==> !p(
                #[trigger] s[i],
            ),
    decreases s.len(),
{
    if s.len() > 0 && !p(s[0]) {
        let t = s.drop_first();
        lemma_first_index_bound(t, p);
        assert forall|i: int|
            0 <= i < s.len() && (first_index(s, p) < 0 || i < first_index(s, p)) implies !p(
            #[trigger] s[i],
        ) by {
            if i > 0 {
                assert(s[i] == t[i - 1]);
            }
        }
        if first_index(s, p) >= 0 {
            assert(s[first_index(s, p)] == t[first_index(t, p)]);
        }
    }
}

/// `str::split_once` on a character predicate: the text before and after the first match.
pub open spec fn split_once_by(s: Seq<char>, p: spec_fn(char) -> bool) -> Option<
    (Seq<char>, Seq<char>),
> {
    let i = first_index(s, p);
    if i < 0 {
        None
    } else {
        Some((s.take(i), s.skip(i + 1)))
    }
}

/// Index of the first `c` in `v`, or `None`.
pub fn find_char(v: &[char], c: char) -> (r: Option<usize>)
    ensures
        match r {
            Some(i) => first_index(v@, is_char(c)) == i && i < v@.len(),
            None => first_index(v@, is_char(c)) == -1,
        },
{
    let mut i: usize = 0;
    while i < v.len()
        invariant
            i <= v@.len(),
            forall|j: int| 0 <= j < i ==> !is_char(c)(#[trigger] v@[j]),
        decreases v.len() - i,
    {
        if v[i] == c {
            proof {
                lemma_first_index(v@, is_char(c), i as int);
            }
            return Some(i);
        }
        i += 1;
    }
    proof {
        lemma_first_index(v@, is_char(c), i as int);
    }
    None
}

/// Index of the first whitespace character in `v`, or `None`.
pub fn find_ws(v: &[char]) -> (r: Option<usize>)
    ensures
        match r {
            Some(i) => first_index(v@, is_ws_pred()) == i && i < v@.len(),
            None => first_index(v@, is_ws_pred()) == -1,
        },
{
    let mut i: usize = 0;
    while i < v.len()
        invariant
            i <= v@.len(),
            forall|j: int| 0 <= j < i ==> !is_ws_pred()(#[trigger] v@[j]),
        decreases v.len() - i,
    {
        if is_whitespace(v[i]) {
            proof {
                lemma_first_index(v@, is_ws_pred(), i as int);
            }
            return Some(i);
        }
        i += 1;
    }
    proof {
        lemma_first_index(v@, is_ws_pred(), i as int);
    }
    None
}

/// `str::split_once(c)`.
pub fn split_once_char(v: &[char], c: char) -> (r: Option<(Vec<char>, Vec<char>)>)
    ensures
        match r {
            Some((a, b)) => split_once_by(v@, is_char(c)) == Some((a@, b@)),
            None => split_once_by(v@, is_char(c)) is None,
        },
{
    match find_char(v, c) {
        Some(i) => {
            let n = v.len();
            Some((slice(v, 0, i), slice(v, i + 1, n)))
        },
        None => None,
    }
}

/// `str::split_once(char::is_whitespace)`.
pub fn split_once_ws(v: &[char]) -> (r: Option<(Vec<char>, Vec<char>)>)
    ensures
        match r {
            Some((a, b)) => split_once_by(v@, is_ws_pred()) == Some((a@, b@)),
            None => split_once_by(v@, is_ws_pred()) is None,
        },
{
    match find_ws(v) {
        Some(i) => {
            let n = v.len();
            Some((slice(v, 0, i), slice(v, i + 1, n)))
        },
        None => None,
    }
}

/// The character sequences held by a list of character vectors.
pub open spec fn seqs(v: Seq<Vec<char>>) -> Seq<Seq<char>> {
    v.map_values(|x: Vec<char>| x@)
}

/// `str::split(c)`: the pieces between the occurrences of `c` (always at least one).
pub open spec fn split_char(s: Seq<char>, c: char) -> Seq<Seq<char>>
    decreases s.len(),
{
    if s.len() == 0 {
        seq![Seq::<char>::empty()]
    } else {
        let init = split_char(s.drop_last(), c);
        if s.last() == c {
            init.push(Seq::<char>::empty())
        } else {
            init.update(init.len() - 1, init.last().push(s.last()))
        }
    }
}

pub proof fn lemma_split_char_len(s: Seq<char>, c: char)
    ensures
        split_char(s, c).len() >= 1,
    decreases s.len(),
{
    if s.len() > 0 {
        lemma_split_char_len(s.drop_last(), c);
    }
}

/// `str::split(c)`.
pub fn split_char_vec(v: &[char], c: char) -> (r: Vec<Vec<char>>)
    ensures
        seqs(r@) == split_char(v@, c),
{
    let mut done: Vec<Vec<char>> = Vec::new();
    let mut cur: Vec<char> = Vec::new();
    let mut i: usize = 0;
    while i < v.len()
        invariant
            i <= v@.len(),
            split_char(v@.take(i as int), c) == seqs(done@).push(cur@),
        decreases v.len() - i,
    {
        let ghost pre = v@.take(i as int);
        assert(v@.take(i + 1).drop_last() =~= pre);
        proof {
            lemma_split_char_len(pre, c);
        }
        let ghost dv = seqs(done@);
        let ghost nxt = v@.take(i + 1);
        assert(nxt.last() == v@[i as int]);
        if v[i] == c {
            let ghost old_cur = cur@;
            done.push(cur);
            assert(seqs(done@) =~= dv.push(old_cur));
            cur = Vec::new();
            assert(seqs(done@).push(cur@) =~= split_char(nxt, c));
        } else {
            cur.push(v[i]);
            assert(seqs(done@) =~= dv);
            assert(seqs(done@).push(cur@) =~= split_char(nxt, c));
        }
        i += 1;
    }
    assert(v@.take(i as int) =~= v@);
    let ghost dv = seqs(done@);
    let ghost last = cur@;
    done.push(cur);
    assert(seqs(done@) =~= dv.push(last));
    done
}

/// A copy of the words `ws[from..]`.
pub fn copy_words(ws: &Vec<Vec<char>>, from: usize) -> (r: Vec<Vec<char>>)
    requires
        from <= ws@.len(),
    ensures
        seqs(r@) == seqs(ws@).skip(from as int),
{
    let mut r: Vec<Vec<char>> = Vec::new();
    let mut i: usize = from;
    while i < ws.len()
        invariant
            from <= i <= ws@.len(),
            seqs(r@) == seqs(ws@).subrange(from as int, i as int),
        decreases ws.len() - i,
    {
        let ghost r0 = seqs(r@);
        let w = slice(&ws[i], 0, ws[i].len());
        assert(w@ =~= ws@[i as int]@);
        r.push(w);
        assert(seqs(r@) =~= r0.push(w@));
        i += 1;
        assert(seqs(r@) =~= seqs(ws@).subrange(from as int, i as int));
    }
    assert(seqs(r@) =~= seqs(ws@).skip(from as int));
    r
}

/// `str::split_whitespace`: the maximal runs of non-whitespace characters.
pub open spec fn words(s: Seq<char>) -> Seq<Seq<char>>
    decreases s.len(),
{
    if s.len() == 0 {
        Seq::<Seq<char>>::empty()
    } else {
        let w = words(s.drop_last());
        let c = s.last();
        if is_ws(c) {
            w
        } else if s.len() >= 2 && !is_ws(s[s.len() - 2]) {
            w.update(w.len() - 1, w.last().push(c))
        } else {
            w.push(seq![c])
        }
    }
}

pub proof fn lemma_words_nonempty(s: Seq<char>)
    requires
        s.len() > 0,
        !is_ws(s.last()),
    ensures
        words(s).len() > 0,
    decreases s.len(),
{
    if s.len() >= 2 && !is_ws(s[s.len() - 2]) {
        let t = s.drop_last();
        assert(t.last() == s[s.len() - 2]);
        lemma_words_nonempty(t);
    }
}

/// `str::split_whitespace`.
pub fn words_vec(v: &[char]) -> (r: Vec<Vec<char>>)
    ensures
        seqs(r@) == words(v@),
{
    let mut out: Vec<Vec<char>> = Vec::new();
    let mut i: usize = 0;
    while i < v.len()
        invariant
            i <= v@.len(),
            words(v@.take(i as int)) == seqs(out@),
        decreases v.len() - i,
    {
        let ghost pre = v@.take(i as int);
        let ghost nxt = v@.take(i + 1);
        assert(nxt.drop_last() =~= pre);
        assert(nxt.last() == v@[i as int]);
        let c = v[i];
        if is_whitespace(c) {
        } else if i >= 1 && !is_whitespace(v[i - 1]) {
            assert(nxt[nxt.len() - 2] == v@[i - 1]);
            proof {
                assert(pre.last() == v@[i - 1]);
                lemma_words_nonempty(pre);
            }
            let ghost dv = seqs(out@);
            let mut last = out.pop().unwrap();
            assert(seqs(out@) =~= dv.drop_last());
            assert(last@ == dv.last());
            last.push(c);
            let ghost lv = last@;
            out.push(last);
            assert(seqs(out@) =~= dv.drop_last().push(lv));
            assert(seqs(out@) =~= words(nxt));
        } else {
            if i >= 1 {
                assert(nxt[nxt.len() - 2] == v@[i - 1]);
            }
            let ghost dv = seqs(out@);
            let mut w: Vec<char> = Vec::new();
            w.push(c);
            let ghost wv = w@;
            out.push(w);
            assert(seqs(out@) =~= dv.push(wv));
            assert(wv =~= seq![c]);
            assert(seqs(out@) =~= words(nxt));
        }
        i += 1;
    }
    assert(v@.take(i as int) =~= v@);
    out
}

/// `[T]::join(sep)` on character sequences.
pub open spec fn join(parts: Seq<Seq<char>>, sep: Seq<char>) -> Seq<char>
    decreases parts.len(),
{
    if parts.len() == 0 {
        Seq::<char>::empty()
    } else if parts.len() == 1 {
        parts[0]
    } else {
        join(parts.drop_last(), sep) + sep + parts.last()
    }
}

/// Appends `b` to `a`.
pub fn append(a: &mut Vec<char>, b: &[char])
    ensures
        final(a)@ == old(a)@ + b@,
{
    let mut i: usize = 0;
    let ghost a0 = a@;
    while i < b.len()
        invariant
            i <= b@.len(),
            a@ == a0 + b@.take(i as int),
        decreases b.len() - i,
    {
        a.push(b[i]);
        i += 1;
        assert(a@ =~= a0 + b@.take(i as int));
    }
    assert(b@.take(i as int) =~= b@);
}

/// `parts.join(sep)`.
pub fn join_vec(parts: &Vec<Vec<char>>, sep: &[char]) -> (r: Vec<char>)
    ensures
        r@ == join(seqs(parts@), sep@),
{
    let mut r: Vec<char> = Vec::new();
    let mut i: usize = 0;
    while i < parts.len()
        invariant
            i <= parts@.len(),
            r@ == join(seqs(parts@).take(i as int), sep@),
        decreases parts.len() - i,
    {
        let ghost pre = seqs(parts@).take(i as int);
        let ghost nxt = seqs(parts@).take(i + 1);
        assert(nxt.drop_last() =~= pre);
        if i > 0 {
            append(&mut r, sep);
        }
        append(&mut r, &parts[i]);
        i += 1;
        assert(r@ =~= join(nxt, sep@));
    }
    assert(seqs(parts@).take(i as int) =~= seqs(parts@));
    r
}

/// `char::to_ascii_lowercase`.
pub open spec fn lower_char(c: char) -> char {
    if 'A' <= c && c <= 'Z' {
        ((c as u32) + 32) as char
    } else {
        c
    }
}

/// `str::to_ascii_lowercase`.
pub open spec fn lower(s: Seq<char>) -> Seq<char> {
    s.map_values(|c: char| lower_char(c))
}

pub fn lower_char_exec(c: char) -> (r: char)
    ensures
        r == lower_char(c),
{
    if 'A' <= c && c <= 'Z' {
        let u = (c as u8) + 32;
        u as char
    } else {
        c
    }
}

/// `str::to_ascii_lowercase`.
pub fn lower_vec(v: &[char]) -> (r: Vec<char>)
    ensures
        r@ == lower(v@),
{
    let mut r: Vec<char> = Vec::new();
    let mut i: usize = 0;
    while i < v.len()
        invariant
            i <= v@.len(),
            r@ == lower(v@.take(i as int)),
        decreases v.len() - i,
    {
        r.push(lower_char_exec(v[i]));
        i += 1;
        assert(r@ =~= lower(v@.take(i as int)));
    }
    assert(v@.take(i as int) =~= v@);
    r
}

/// Whether `a` and `b` hold the same characters.
pub fn same(a: &[char], b: &[char]) -> (r: bool)
    ensures
        r == (a@ == b@),
{
    if a.len() != b.len() {
        return false;
    }
    let mut i: usize = 0;
    while i < a.len()
        invariant
            a@.len() == b@.len(),
            i <= a@.len(),
            forall|j: int| 0 <= j < i ==> a@[j] == b@[j],
        decreases a.len() - i,
    {
        if a[i] != b[i] {
            return false;
        }
        i += 1;
    }
    assert(a@ =~= b@);
    true
}

/// Characters of a string slice, in order.
pub fn chars_of(s: &str) -> (v: Vec<char>)
    ensures
        v@ == s@,
{
    broadcast use vstd::string::group_string_axioms;

    let mut v: Vec<char> = Vec::new();
    for c in it: s.chars()
        invariant
            v@ == it.seq().take(it.index() as int),
            it.seq() == s@,
    {
        v.push(c);
    }
    v
}

/// Whether `v` spells the string `lit`.
pub fn is(v: &[char], lit: &str) -> (r: bool)
    ensures
        r == (v@ == lit@),
{
    let l = chars_of(lit);
    same(v, &l)
}

#[verifier::external_body]
fn push_char(s: &mut String, c: char)
    ensures
        final(s)@ == old(s)@.push(c),
{
    s.push(c);
}

/// The string holding the characters of `v`.
pub fn string_of(v: &[char]) -> (s: String)
    ensures
        s@ == v@,
{
    let mut s = String::new();
    let mut i: usize = 0;
    while i < v.len()
        invariant
            i <= v@.len(),
            s@ == v@.take(i as int),
        decreases v.len() - i,
    {
        push_char(&mut s, v[i]);
        i += 1;
        assert(s@ =~= v@.take(i as int));
    }
    assert(v@.take(i as int) =~= v@);
    s
}

/// The string `lit` followed by the characters of `v` and then the string `tail`.
pub fn concat3(lit: &str, v: &[char], tail: &str) -> (s: String)
    ensures
        s@ == lit@ + v@ + tail@,
{
    let mut r = chars_of(lit);
    append(&mut r, v);
    let t = chars_of(tail);
    append(&mut r, &t);
    string_of(&r)
}

/// An owned copy of `lit`.
pub fn owned(lit: &str) -> (s: String)
    ensures
        s@ == lit@,
{
    let v = chars_of(lit);
    string_of(&v)
}

} // verus!
