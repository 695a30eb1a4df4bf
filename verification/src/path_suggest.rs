//! Completion of a partially typed path from a directory listing: the typed text splits at
//! its last `/` into the directory part and the partial name; entries of that directory (hidden
//! ones only when the partial name starts with a dot) that start with the partial name are
//! offered, directories first and then files (optionally only those with one of some
//! extensions), each group in lexicographic order, at most `max` of them. Reading the
//! directory is the caller's.
use vstd::prelude::*;
use vstd::relations::{sorted_by, total_ordering};

use crate::command::opt_view;
use crate::convert::{extension_of, path_extension};
use crate::path::{join_path, joined_path};
use crate::text::{append, chars_of, is, lower, lower_vec, same, slice, string_of};

verus! {

/// Maximum number of suggestions offered.
pub const MAX_SUGGESTIONS: usize = 12;

/// `input` with a leading `~/` (or a bare `~`) replaced by `home`, when a home directory is
/// known; otherwise `input` itself.
pub open spec fn spec_expand_tilde(input: Seq<char>, home: Option<Seq<char>>) -> Seq<char> {
    if input.len() >= 2 && input[0] == '~' && input[1] == '/' {
        match home {
            Some(h) => joined_path(h, input.skip(2)),
            None => input,
        }
    } else if input == seq!['~'] {
        match home {
            Some(h) => h,
            None => input,
        }
    } else {
        input
    }
}

/// Expand a leading `~/` (or bare `~`) in `input` to `home`, for use as a directory to read.
pub fn expand_tilde(input: &str, home: Option<&str>) -> (r: String)
    ensures
        r@ == spec_expand_tilde(input@, match home {
            Some(h) => Some(h@),
            None => None,
        }),
{
    let v = chars_of(input);
    if v.len() >= 2 && v[0] == '~' && v[1] == '/' {
        match home {
            Some(h) => {
                let rest = slice(&v, 2, v.len());
                assert(rest@ =~= input@.skip(2));
                join_path(h, string_of(&rest).as_str())
            },
            None => string_of(&v),
        }
    } else if v.len() == 1 && v[0] == '~' {
        assert(input@ =~= seq!['~']);
        match home {
            Some(h) => string_of(&chars_of(h)),
            None => string_of(&v),
        }
    } else {
        proof {
            if input@ == seq!['~'] {
                assert(v@.len() == 1);
            }
        }
        string_of(&v)
    }
}

/// The position of the last `/` of `s`, or -1.
pub open spec fn last_slash(s: Seq<char>) -> int
    decreases s.len(),
{
    if s.len() == 0 {
        -1
    } else if s.last() == '/' {
        s.len() - 1
    } else {
        last_slash(s.drop_last())
    }
}

pub proof fn lemma_last_slash(s: Seq<char>)
    ensures
        -1 <= last_slash(s) < s.len(),
        last_slash(s) >= 0 ==> s[last_slash(s)] == '/',
        forall|i: int| last_slash(s) < i < s.len() ==> s[i] != '/',
    decreases s.len(),
{
    if s.len() > 0 && s.last() != '/' {
        let t = s.drop_last();
        lemma_last_slash(t);
        assert forall|i: int| last_slash(s) < i < s.len() implies s[i] != '/' by {
            if i < s.len() - 1 {
                assert(s[i] == t[i]);
            }
        }
    }
}

/// The directory part of typed text (through its last `/`) and the partial name after it.
pub open spec fn spec_split_input(input: Seq<char>) -> (Seq<char>, Seq<char>) {
    let k = last_slash(input);
    (input.take(k + 1), input.skip(k + 1))
}

fn split_input(v: &Vec<char>) -> (r: (Vec<char>, Vec<char>))
    ensures
        (r.0@, r.1@) == spec_split_input(v@),
{
    let mut k = v.len();
    proof {
        lemma_last_slash(v@);
        assert(v@.take(v@.len() as int) =~= v@);
    }
    while k > 0 && v[k - 1] != '/'
        invariant
            k <= v@.len(),
            last_slash(v@) == last_slash(v@.take(k as int)),
        decreases k,
    {
        assert(v@.take(k as int).drop_last() =~= v@.take(k - 1));
        k -= 1;
    }
    proof {
        if k > 0 {
            assert(v@.take(k as int).last() == v@[k - 1]);
        }
    }
    let dir = slice(v, 0, k);
    let partial = slice(v, k, v.len());
    assert(dir@ =~= v@.take(k as int));
    assert(partial@ =~= v@.skip(k as int));
    (dir, partial)
}

/// The directory to read for typed text: the working directory `.` when it has no directory
/// part, else its directory part with `~` expanded.
pub fn completion_dir(input: &str, home: Option<&str>) -> (r: String)
    ensures
        r@ == (if spec_split_input(input@).0.len() == 0 {
            seq!['.']
        } else {
            spec_expand_tilde(spec_split_input(input@).0, match home {
                Some(h) => Some(h@),
                None => None,
            })
        }),
{
    let (dir, _) = split_input(&chars_of(input));
    if dir.len() == 0 {
        let r = string_of(&chars_of("."));
        proof {
            reveal_strlit(".");
        }
        assert(r@ =~= seq!['.']);
        r
    } else {
        expand_tilde(string_of(&dir).as_str(), home)
    }
}

// ---------------------------------------------------------------------------------------------
// Lexicographic order of character sequences (the order of `String`'s `Ord`: UTF-8 bytes
// compare as their code points do).
// ---------------------------------------------------------------------------------------------

pub open spec fn lex_le(a: Seq<char>, b: Seq<char>) -> bool
    decreases a.len(),
{
    if a.len() == 0 {
        true
    } else if b.len() == 0 {
        false
    } else if a[0] != b[0] {
        a[0] < b[0]
    } else {
        lex_le(a.drop_first(), b.drop_first())
    }
}

pub proof fn lemma_lex_total(a: Seq<char>, b: Seq<char>)
    ensures
        lex_le(a, b) || lex_le(b, a),
        lex_le(a, b) && lex_le(b, a) ==> a == b,
    decreases a.len(),
{
    if a.len() > 0 && b.len() > 0 && a[0] == b[0] {
        lemma_lex_total(a.drop_first(), b.drop_first());
        if lex_le(a, b) && lex_le(b, a) {
            assert(a =~= seq![a[0]] + a.drop_first());
            assert(b =~= seq![b[0]] + b.drop_first());
        }
    }
    if a.len() == 0 && b.len() == 0 {
        assert(a =~= b);
    }
}

pub proof fn lemma_lex_trans(a: Seq<char>, b: Seq<char>, c: Seq<char>)
    requires
        lex_le(a, b),
        lex_le(b, c),
    ensures
        lex_le(a, c),
    decreases a.len(),
{
    if a.len() > 0 && b.len() > 0 && c.len() > 0 && a[0] == b[0] && b[0] == c[0] {
        lemma_lex_trans(a.drop_first(), b.drop_first(), c.drop_first());
    }
}

pub proof fn lemma_lex_total_ordering()
    ensures
        total_ordering(|a: Seq<char>, b: Seq<char>| lex_le(a, b)),
{
    let leq = |a: Seq<char>, b: Seq<char>| lex_le(a, b);
    assert forall|a: Seq<char>| #[trigger] leq(a, a) by {
        lemma_lex_total(a, a);
    }
    assert forall|a: Seq<char>, b: Seq<char>| #[trigger] leq(a, b) && #[trigger] leq(b, a) implies a
        == b by {
        lemma_lex_total(a, b);
    }
    assert forall|a: Seq<char>, b: Seq<char>, c: Seq<char>|
        #[trigger] leq(a, b) && #[trigger] leq(b, c) implies leq(a, c) by {
        lemma_lex_trans(a, b, c);
    }
    assert forall|a: Seq<char>, b: Seq<char>| #[trigger] leq(a, b) || leq(b, a) by {
        lemma_lex_total(a, b);
    }
}

fn lex_le_exec(a: &Vec<char>, b: &Vec<char>) -> (r: bool)
    ensures
        r == lex_le(a@, b@),
{
    let mut i: usize = 0;
    assert(a@.skip(0) =~= a@);
    assert(b@.skip(0) =~= b@);
    while i < a.len() && i < b.len() && a[i] == b[i]
        invariant
            i <= a@.len(),
            i <= b@.len(),
            lex_le(a@, b@) == lex_le(a@.skip(i as int), b@.skip(i as int)),
        decreases a.len() - i,
    {
        assert(a@.skip(i as int).drop_first() =~= a@.skip(i + 1));
        assert(b@.skip(i as int).drop_first() =~= b@.skip(i + 1));
        i += 1;
    }
    if i == a.len() {
        true
    } else if i == b.len() {
        false
    } else {
        a[i] < b[i]
    }
}

pub open spec fn seq_views(v: Seq<Vec<char>>) -> Seq<Seq<char>> {
    v.map_values(|x: Vec<char>| x@)
}

/// Sort by lexicographic order (insertion sort).
fn sort_lex(items: Vec<Vec<char>>) -> (r: Vec<Vec<char>>)
    ensures
        seq_views(r@) == seq_views(items@).sort_by(|a: Seq<char>, b: Seq<char>| lex_le(a, b)),
{
    let ghost leq = |a: Seq<char>, b: Seq<char>| lex_le(a, b);
    let ghost all = seq_views(items@);
    let mut rest = items;
    let mut out: Vec<Vec<char>> = Vec::new();
    proof {
        lemma_lex_total_ordering();
        assert(seq_views(out@) =~= Seq::<Seq<char>>::empty());
        assert(all.take(0) =~= Seq::<Seq<char>>::empty());
    }
    while rest.len() > 0
        invariant
            total_ordering(leq),
            leq == (|a: Seq<char>, b: Seq<char>| lex_le(a, b)),
            rest@.len() <= all.len(),
            seq_views(rest@) == all.skip(all.len() - rest@.len()),
            sorted_by(seq_views(out@), leq),
            seq_views(out@).to_multiset() == all.take(all.len() - rest@.len()).to_multiset(),
        decreases rest.len(),
    {
        let ghost k = all.len() - rest@.len();
        let ghost old_rest = rest@;
        let x = rest.remove(0);
        proof {
            assert(seq_views(old_rest)[0] == old_rest[0]@);
            assert(all.skip(k)[0] == all[k]);
            assert(x@ == all[k]);
            assert forall|i: int| 0 <= i < rest@.len() implies seq_views(rest@)[i] == all.skip(
                all.len() - rest@.len(),
            )[i] by {
                assert(rest@[i] == old_rest[i + 1]);
                assert(seq_views(old_rest)[i + 1] == all.skip(k)[i + 1]);
            }
            assert(seq_views(rest@) =~= all.skip(all.len() - rest@.len()));
            assert(all.take(k + 1) =~= all.take(k).push(x@));
        }
        let mut j: usize = 0;
        while j < out.len() && lex_le_exec(&out[j], &x)
            invariant
                j <= out@.len(),
                forall|m: int| 0 <= m < j ==> lex_le(#[trigger] out@[m]@, x@),
            decreases out.len() - j,
        {
            j += 1;
        }
        let ghost before = seq_views(out@);
        proof {
            if j < out@.len() {
                lemma_lex_total(out@[j as int]@, x@);
            }
        }
        out.insert(j, x);
        proof {
            let after = seq_views(out@);
            assert(after =~= before.insert(j as int, x@));
            vstd::seq_lib::to_multiset_insert(before, j as int, x@);
            vstd::seq_lib::lemma_multiset_commutative(all.take(k), seq![x@]);
            assert(all.take(k).push(x@) =~= all.take(k) + seq![x@]);
            assert(seq![x@].to_multiset() =~= vstd::multiset::Multiset::singleton(x@)) by {
                broadcast use vstd::seq_lib::group_to_multiset_ensures;
                assert(seq![x@].drop_first() =~= Seq::<Seq<char>>::empty());
            }
            assert forall|a: int, b: int| 0 <= a < b < after.len() implies #[trigger] leq(
                after[a],
                after[b],
            ) by {
                if b < j {
                } else if a < j && b == j {
                } else if a < j && b > j {
                    assert(leq(before[a], x@));
                    assert(leq(x@, before[j as int]));
                    lemma_lex_trans(before[a], x@, before[j as int]);
                    if b - 1 > j {
                        assert(leq(before[j as int], before[b - 1]));
                        lemma_lex_trans(before[a], before[j as int], before[b - 1]);
                    }
                } else if a == j {
                    assert(leq(x@, before[j as int]));
                    if b - 1 > j {
                        assert(leq(before[j as int], before[b - 1]));
                        lemma_lex_trans(x@, before[j as int], before[b - 1]);
                    }
                } else {
                    assert(leq(before[a - 1], before[b - 1]));
                }
            }
        }
    }
    proof {
        assert(all.take(all.len() as int) =~= all);
        all.lemma_sort_by_ensures(leq);
        vstd::seq_lib::lemma_sorted_unique(seq_views(out@), all.sort_by(leq), leq);
    }
    out
}

// ---------------------------------------------------------------------------------------------
// Completion from a directory listing.
// ---------------------------------------------------------------------------------------------

/// What a directory entry is.
#[derive(Debug, Clone, Copy, PartialEq, Eq, Structural)]
pub enum EntryKind {
    Dir,
    File,
    Other,
}

pub open spec fn starts_with(s: Seq<char>, p: Seq<char>) -> bool {
    p.len() <= s.len() && s.take(p.len() as int) == p
}

/// An entry named `name` is offered for partial name `partial`: it starts with it, and is not
/// hidden unless the partial name itself starts with a dot.
pub open spec fn offered(name: Seq<char>, partial: Seq<char>) -> bool {
    &&& (name.len() == 0 || name[0] != '.' || (partial.len() > 0 && partial[0] == '.'))
    &&& starts_with(name, partial)
}

/// A file named `name` passes the extension filter: there is none, or its extension equals
/// one of them ignoring ASCII case.
pub open spec fn ext_allowed(name: Seq<char>, exts: Option<Seq<String>>) -> bool {
    match exts {
        None => true,
        Some(es) => match path_extension(name) {
            None => false,
            Some(e) => matches_any(es, e),
        },
    }
}

/// `e` equals one of `es`, ignoring ASCII case.
pub open spec fn matches_any(es: Seq<String>, e: Seq<char>) -> bool {
    exists|i: int| 0 <= i < es.len() && #[trigger] lower(es[i]@) == lower(e)
}

/// The completions of the directories of `listing`, in listing order.
pub open spec fn spec_dir_candidates(
    listing: Seq<(String, EntryKind)>,
    dir: Seq<char>,
    partial: Seq<char>,
) -> Seq<Seq<char>>
    decreases listing.len(),
{
    if listing.len() == 0 {
        Seq::empty()
    } else {
        let acc = spec_dir_candidates(listing.drop_last(), dir, partial);
        let (name, kind) = listing.last();
        if kind == EntryKind::Dir && offered(name@, partial) {
            acc.push(dir + name@ + seq!['/'])
        } else {
            acc
        }
    }
}

/// The completions of the files of `listing`, in listing order.
pub open spec fn spec_file_candidates(
    listing: Seq<(String, EntryKind)>,
    dir: Seq<char>,
    partial: Seq<char>,
    exts: Option<Seq<String>>,
) -> Seq<Seq<char>>
    decreases listing.len(),
{
    if listing.len() == 0 {
        Seq::empty()
    } else {
        let acc = spec_file_candidates(listing.drop_last(), dir, partial, exts);
        let (name, kind) = listing.last();
        if kind == EntryKind::File && offered(name@, partial) && ext_allowed(name@, exts) {
            acc.push(dir + name@)
        } else {
            acc
        }
    }
}

pub open spec fn lex_order() -> spec_fn(Seq<char>, Seq<char>) -> bool {
    |a: Seq<char>, b: Seq<char>| lex_le(a, b)
}

/// The completions of typed text `input` against the entries of its directory: directories
/// (marked `true`, with a trailing `/`) then files, each group sorted, at most `max`.
pub open spec fn spec_complete(
    input: Seq<char>,
    exts: Option<Seq<String>>,
    max: int,
    listing: Seq<(String, EntryKind)>,
) -> Seq<(Seq<char>, bool)> {
    let (dir, partial) = spec_split_input(input);
    let ds = spec_dir_candidates(listing, dir, partial).sort_by(lex_order());
    let fs = spec_file_candidates(listing, dir, partial, exts).sort_by(lex_order());
    let all = ds.map_values(|d: Seq<char>| (d, true)) + fs.map_values(|f: Seq<char>| (f, false));
    if all.len() <= max {
        all
    } else {
        all.take(max)
    }
}

/// `v` is the completion of a directory entry of `listing` offered for `partial`.
pub open spec fn from_dir_entry(
    v: Seq<char>,
    listing: Seq<(String, EntryKind)>,
    dir: Seq<char>,
    partial: Seq<char>,
) -> bool {
    exists|k: int|
        0 <= k < listing.len() && (#[trigger] listing[k]).1 == EntryKind::Dir && offered(
            listing[k].0@,
            partial,
        ) && v == dir + listing[k].0@ + seq!['/']
}

/// `v` is the completion of a regular file of `listing` offered for `partial` whose extension
/// passes the filter `exts`.
pub open spec fn from_file_entry(
    v: Seq<char>,
    listing: Seq<(String, EntryKind)>,
    dir: Seq<char>,
    partial: Seq<char>,
    exts: Option<Seq<String>>,
) -> bool {
    exists|k: int|
        0 <= k < listing.len() && (#[trigger] listing[k]).1 == EntryKind::File && offered(
            listing[k].0@,
            partial,
        ) && ext_allowed(listing[k].0@, exts) && v == dir + listing[k].0@
}

proof fn lemma_dir_candidates_from(
    listing: Seq<(String, EntryKind)>,
    dir: Seq<char>,
    partial: Seq<char>,
    v: Seq<char>,
)
    requires
        spec_dir_candidates(listing, dir, partial).contains(v),
    ensures
        from_dir_entry(v, listing, dir, partial),
    decreases listing.len(),
{
    let init = listing.drop_last();
    let acc = spec_dir_candidates(init, dir, partial);
    let k = listing.len() - 1;
    if acc.contains(v) {
        lemma_dir_candidates_from(init, dir, partial, v);
        let j = choose|j: int|
            0 <= j < init.len() && (#[trigger] init[j]).1 == EntryKind::Dir && offered(
                init[j].0@,
                partial,
            ) && v == dir + init[j].0@ + seq!['/'];
        assert(listing[j] == init[j]);
    } else {
        assert(listing[k] == listing.last());
    }
}

proof fn lemma_file_candidates_from(
    listing: Seq<(String, EntryKind)>,
    dir: Seq<char>,
    partial: Seq<char>,
    exts: Option<Seq<String>>,
    v: Seq<char>,
)
    requires
        spec_file_candidates(listing, dir, partial, exts).contains(v),
    ensures
        from_file_entry(v, listing, dir, partial, exts),
    decreases listing.len(),
{
    let init = listing.drop_last();
    let acc = spec_file_candidates(init, dir, partial, exts);
    let k = listing.len() - 1;
    if acc.contains(v) {
        lemma_file_candidates_from(init, dir, partial, exts, v);
        let j = choose|j: int|
            0 <= j < init.len() && (#[trigger] init[j]).1 == EntryKind::File && offered(
                init[j].0@,
                partial,
            ) && ext_allowed(init[j].0@, exts) && v == dir + init[j].0@;
        assert(listing[j] == init[j]);
    } else {
        assert(listing[k] == listing.last());
    }
}

/// Every completion names an entry of the listing: one marked as a directory is a directory
/// offered for the typed partial name, followed by `/`; any other is a regular file offered
/// for it whose extension passes the filter. So with an extension filter no file with another
/// extension is ever offered, and directories are never filtered.
pub proof fn lemma_completions_come_from_listing(
    input: Seq<char>,
    exts: Option<Seq<String>>,
    max: int,
    listing: Seq<(String, EntryKind)>,
)
    requires
        0 <= max,
    ensures
        ({
            let (dir, partial) = spec_split_input(input);
            let r = spec_complete(input, exts, max, listing);
            forall|i: int|
                0 <= i < r.len() ==> ((#[trigger] r[i]).1 ==> from_dir_entry(
                    r[i].0,
                    listing,
                    dir,
                    partial,
                )) && (!r[i].1 ==> from_file_entry(r[i].0, listing, dir, partial, exts))
        }),
{
    let (dir, partial) = spec_split_input(input);
    let dc = spec_dir_candidates(listing, dir, partial);
    let fc = spec_file_candidates(listing, dir, partial, exts);
    lemma_lex_total_ordering();
    assert(lex_order() == |a: Seq<char>, b: Seq<char>| lex_le(a, b));
    dc.lemma_sort_by_ensures(lex_order());
    fc.lemma_sort_by_ensures(lex_order());
    let ds = dc.sort_by(lex_order());
    let fs = fc.sort_by(lex_order());
    let all = ds.map_values(|d: Seq<char>| (d, true)) + fs.map_values(|f: Seq<char>| (f, false));
    let r = spec_complete(input, exts, max, listing);
    assert(r == (if all.len() <= max {
        all
    } else {
        all.take(max)
    }));
    assert(all.len() == ds.len() + fs.len());
    assert forall|i: int| 0 <= i < r.len() implies ((#[trigger] r[i]).1 ==> from_dir_entry(
        r[i].0,
        listing,
        dir,
        partial,
    )) && (!r[i].1 ==> from_file_entry(r[i].0, listing, dir, partial, exts)) by {
        assert(i < all.len());
        assert(r[i] == all[i]);
        if i < ds.len() {
            assert(all[i] == (ds[i], true));
            assert(ds.contains(ds[i]));
            assert(dc.contains(ds[i]));
            lemma_dir_candidates_from(listing, dir, partial, ds[i]);
        } else {
            let j = i - ds.len();
            assert(all[i] == (fs[j], false));
            assert(fs.contains(fs[j]));
            assert(fc.contains(fs[j]));
            lemma_file_candidates_from(listing, dir, partial, exts, fs[j]);
        }
    }
}

/// With an extension filter `es`, every file completion names a regular file of the listing
/// whose extension equals one of `es` ignoring ASCII case; directory completions end in `/`.
pub proof fn lemma_extension_filter_honored(
    input: Seq<char>,
    es: Seq<String>,
    max: int,
    listing: Seq<(String, EntryKind)>,
    i: int,
)
    requires
        0 <= max,
        0 <= i < spec_complete(input, Some(es), max, listing).len(),
    ensures
        ({
            let (dir, partial) = spec_split_input(input);
            let c = spec_complete(input, Some(es), max, listing)[i];
            &&& !c.1 ==> exists|k: int|
                0 <= k < listing.len() && (#[trigger] listing[k]).1 == EntryKind::File && c.0
                    == dir + listing[k].0@ && (path_extension(listing[k].0@) matches Some(e)
                    && matches_any(es, e))
            &&& c.1 ==> c.0.len() > 0 && c.0.last() == '/'
        }),
{
    lemma_completions_come_from_listing(input, Some(es), max, listing);
    let (dir, partial) = spec_split_input(input);
    let c = spec_complete(input, Some(es), max, listing)[i];
    if !c.1 {
        assert(from_file_entry(c.0, listing, dir, partial, Some(es)));
        let k = choose|k: int|
            0 <= k < listing.len() && (#[trigger] listing[k]).1 == EntryKind::File && offered(
                listing[k].0@,
                partial,
            ) && ext_allowed(listing[k].0@, Some(es)) && c.0 == dir + listing[k].0@;
        assert(0 <= k < listing.len() && listing[k].1 == EntryKind::File);
    } else {
        assert(from_dir_entry(c.0, listing, dir, partial));
        let k = choose|k: int|
            0 <= k < listing.len() && (#[trigger] listing[k]).1 == EntryKind::Dir && offered(
                listing[k].0@,
                partial,
            ) && c.0 == dir + listing[k].0@ + seq!['/'];
        assert((dir + listing[k].0@ + seq!['/']).last() == '/');
    }
}

fn starts_with_exec(s: &Vec<char>, p: &Vec<char>) -> (r: bool)
    ensures
        r == starts_with(s@, p@),
{
    if p.len() > s.len() {
        return false;
    }
    let head = slice(s, 0, p.len());
    assert(head@ =~= s@.take(p@.len() as int));
    same(&head, p)
}

fn ext_allowed_exec(name: &str, exts: Option<&Vec<String>>) -> (r: bool)
    ensures
        r == ext_allowed(name@, match exts {
            Some(e) => Some(e@),
            None => None,
        }),
{
    let es = match exts {
        None => return true,
        Some(es) => es,
    };
    let e = match extension_of(name) {
        None => return false,
        Some(e) => e,
    };
    let le = lower_vec(&chars_of(e.as_str()));
    let mut i: usize = 0;
    while i < es.len()
        invariant
            i <= es@.len(),
            exts == Some(es),
            le@ == lower(e@),
            opt_view(Some(e)) == path_extension(name@),
            forall|k: int| 0 <= k < i ==> #[trigger] lower(es@[k]@) != lower(e@),
        decreases es.len() - i,
    {
        let la = lower_vec(&chars_of(es[i].as_str()));
        if same(&la, &le) {
            assert(lower(es@[i as int]@) == lower(e@));
            return true;
        }
        i += 1;
    }
    false
}

/// Complete typed text `input` against the entries of its directory (each a name and what it
/// is, as the caller read them): directories first then files, each group in lexicographic
/// order, at most `max`; with `extensions`, only files with one of them are offered.
pub fn complete_from_listing(
    input: &str,
    extensions: Option<&Vec<String>>,
    max: usize,
    listing: &Vec<(String, EntryKind)>,
) -> (r: Vec<(String, bool)>)
    ensures
        r@.map_values(|p: (String, bool)| (p.0@, p.1)) == spec_complete(
            input@,
            match extensions {
                Some(e) => Some(e@),
                None => None,
            },
            max as int,
            listing@,
        ),
{
    let ghost exts = match extensions {
        Some(e) => Some(e@),
        None => None,
    };
    let (dir, partial) = split_input(&chars_of(input));
    let mut dirs: Vec<Vec<char>> = Vec::new();
    let mut files: Vec<Vec<char>> = Vec::new();
    let mut i: usize = 0;
    assert(listing@.take(0) =~= Seq::<(String, EntryKind)>::empty());
    assert(seq_views(dirs@) =~= Seq::<Seq<char>>::empty());
    assert(seq_views(files@) =~= Seq::<Seq<char>>::empty());
    while i < listing.len()
        invariant
            i <= listing@.len(),
            exts == match extensions {
                Some(e) => Some(e@),
                None => None::<Seq<String>>,
            },
            seq_views(dirs@) == spec_dir_candidates(listing@.take(i as int), dir@, partial@),
            seq_views(files@) == spec_file_candidates(
                listing@.take(i as int),
                dir@,
                partial@,
                exts,
            ),
        decreases listing.len() - i,
    {
        let ghost nxt = listing@.take(i + 1);
        assert(nxt.drop_last() =~= listing@.take(i as int));
        assert(nxt.last() == listing@[i as int]);
        let name = chars_of(listing[i].0.as_str());
        let hidden = name.len() > 0 && name[0] == '.';
        let show_hidden = partial.len() > 0 && partial[0] == '.';
        let visible = (!hidden || show_hidden) && starts_with_exec(&name, &partial);
        if visible {
            match listing[i].1 {
                EntryKind::Dir => {
                    let mut c = slice(&dir, 0, dir.len());
                    append(&mut c, &name);
                    c.push('/');
                    assert(dir@.subrange(0, dir@.len() as int) =~= dir@);
                    assert(c@ =~= dir@ + name@ + seq!['/']);
                    let ghost before = seq_views(dirs@);
                    dirs.push(c);
                    assert(seq_views(dirs@) =~= before.push(dir@ + name@ + seq!['/']));
                },
                EntryKind::File => {
                    if ext_allowed_exec(listing[i].0.as_str(), extensions) {
                        let mut c = slice(&dir, 0, dir.len());
                        append(&mut c, &name);
                        assert(dir@.subrange(0, dir@.len() as int) =~= dir@);
                        assert(c@ =~= dir@ + name@);
                        let ghost before = seq_views(files@);
                        files.push(c);
                        assert(seq_views(files@) =~= before.push(dir@ + name@));
                    }
                },
                EntryKind::Other => {},
            }
        }
        i += 1;
    }
    assert(listing@.take(i as int) =~= listing@);
    let ds = sort_lex(dirs);
    let fs = sort_lex(files);
    let ghost all = seq_views(ds@).map_values(|d: Seq<char>| (d, true)) + seq_views(fs@).map_values(
        |f: Seq<char>| (f, false),
    );
    let mut out: Vec<(String, bool)> = Vec::new();
    let mut k: usize = 0;
    while k < ds.len() && out.len() < max
        invariant
            k <= ds@.len(),
            out@.len() == k,
            k <= max,
            forall|m: int|
                0 <= m < k ==> (#[trigger] out@[m]).0@ == ds@[m]@ && out@[m].1 == true,
        decreases ds.len() - k,
    {
        out.push((string_of(&ds[k]), true));
        k += 1;
    }
    let mut f: usize = 0;
    while f < fs.len() && out.len() < max
        invariant
            f <= fs@.len(),
            out@.len() == k + f,
            k + f <= max,
            k <= ds@.len(),
            k == ds@.len() || k == max,
            forall|m: int|
                0 <= m < k ==> (#[trigger] out@[m]).0@ == ds@[m]@ && out@[m].1 == true,
            forall|m: int|
                k <= m < k + f ==> (#[trigger] out@[m]).0@ == fs@[m - k]@ && out@[m].1 == false,
        decreases fs.len() - f,
    {
        out.push((string_of(&fs[f]), false));
        f += 1;
    }
    proof {
        let got = out@.map_values(|p: (String, bool)| (p.0@, p.1));
        let want = if all.len() <= max {
            all
        } else {
            all.take(max as int)
        };
        assert(got.len() == want.len());
        assert forall|m: int| 0 <= m < got.len() implies got[m] == want[m] by {
            if m < k {
                assert(got[m] == (out@[m].0@, out@[m].1));
            } else {
                assert(got[m] == (out@[m].0@, out@[m].1));
            }
        }
        assert(got =~= want);
    }
    out
}

// ---------------------------------------------------------------------------------------------
// Suggestions.
// ---------------------------------------------------------------------------------------------

/// One completion as the suggestion popup shows it: the full value, its label (the last path
/// component, with a trailing `/` for a directory) and whether it is a directory (completion
/// continues below it).
#[derive(Debug, Clone, PartialEq, Eq)]
pub struct Suggestion {
    pub value: String,
    pub label: String,
    pub partial: bool,
}

/// The last component of a completion value (after dropping one trailing `/`).
pub open spec fn spec_last_component(value: Seq<char>) -> Seq<char> {
    let t = if value.len() > 0 && value.last() == '/' {
        value.drop_last()
    } else {
        value
    };
    t.skip(last_slash(t) + 1)
}

pub open spec fn spec_label(value: Seq<char>, is_dir: bool) -> Seq<char> {
    if is_dir {
        spec_last_component(value) + seq!['/']
    } else {
        spec_last_component(value)
    }
}

/// The suggestions of a list of completions, in order.
pub fn suggestions(completions: Vec<(String, bool)>) -> (r: Vec<Suggestion>)
    ensures
        r@.len() == completions@.len(),
        forall|i: int|
            0 <= i < r@.len() ==> (#[trigger] r@[i]).value == completions@[i].0 && r@[i].label@
                == spec_label(completions@[i].0@, completions@[i].1) && r@[i].partial
                == completions@[i].1,
{
    let mut out: Vec<Suggestion> = Vec::new();
    let mut i: usize = 0;
    while i < completions.len()
        invariant
            i <= completions@.len(),
            out@.len() == i,
            forall|k: int|
                0 <= k < i ==> (#[trigger] out@[k]).value == completions@[k].0 && out@[k].label@
                    == spec_label(completions@[k].0@, completions@[k].1) && out@[k].partial
                    == completions@[k].1,
        decreases completions.len() - i,
    {
        let value = completions[i].0.clone();
        let is_dir = completions[i].1;
        let v = chars_of(value.as_str());
        let t = if v.len() > 0 && v[v.len() - 1] == '/' {
            slice(&v, 0, v.len() - 1)
        } else {
            slice(&v, 0, v.len())
        };
        proof {
            assert(v@.subrange(0, v@.len() as int) =~= v@);
            if v@.len() > 0 && v@.last() == '/' {
                assert(t@ =~= v@.drop_last());
            }
        }
        let (_, last) = split_input(&t);
        let mut label = last;
        if is_dir {
            label.push('/');
        }
        out.push(Suggestion { value, label: string_of(&label), partial: is_dir });
        i += 1;
    }
    out
}

/// Path completion restricted, for files, to some extensions (directories always show).
#[derive(Debug, Clone, Default)]
pub struct FsPathProvider {
    pub extensions: Option<Vec<String>>,
}

impl FsPathProvider {
    /// Restrict file suggestions (directories are always shown) to the given extensions.
    pub fn with_extensions(extensions: &[&str]) -> (r: Self)
        ensures
            r.extensions matches Some(es) && es@.len() == extensions@.len() && forall|i: int|
                0 <= i < es@.len() ==> (#[trigger] es@[i])@ == extensions@[i]@,
    {
        let mut es: Vec<String> = Vec::new();
        let mut i: usize = 0;
        while i < extensions.len()
            invariant
                i <= extensions@.len(),
                es@.len() == i,
                forall|k: int| 0 <= k < i ==> (#[trigger] es@[k])@ == extensions@[k]@,
            decreases extensions.len() - i,
        {
            es.push(string_of(&chars_of(extensions[i])));
            i += 1;
        }
        FsPathProvider { extensions: Some(es) }
    }

    /// The suggestions for typed text `input`, given the entries of its directory (see
    /// `completion_dir`): the completions of `complete_from_listing` with this provider's
    /// extensions and at most `MAX_SUGGESTIONS` of them, each as a suggestion.
    pub fn suggest_from_listing(&self, input: &str, listing: &Vec<(String, EntryKind)>) -> (r: Vec<
        Suggestion,
    >)
        ensures
            ({
                let c = spec_complete(
                    input@,
                    match self.extensions {
                        Some(e) => Some(e@),
                        None => None,
                    },
                    MAX_SUGGESTIONS as int,
                    listing@,
                );
                &&& r@.len() == c.len()
                &&& forall|i: int|
                    0 <= i < r@.len() ==> (#[trigger] r@[i]).value@ == c[i].0 && r@[i].label@
                        == spec_label(c[i].0, c[i].1) && r@[i].partial == c[i].1
            }),
    {
        let completions = complete_from_listing(input, self.extensions.as_ref(), MAX_SUGGESTIONS, listing);
        let ghost cv = completions@;
        let r = suggestions(completions);
        proof {
            assert forall|i: int| 0 <= i < r@.len() implies (#[trigger] r@[i]).value@ == cv.map_values(
                |p: (String, bool)| (p.0@, p.1),
            )[i].0 by {
                assert(cv.map_values(|p: (String, bool)| (p.0@, p.1))[i] == (cv[i].0@, cv[i].1));
            }
        }
        r
    }
}

} // verus!
