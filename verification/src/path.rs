//! `~` expansion for user-supplied filesystem paths, and base-directory resolution and
//! relativization for file-relative path fields. The user's home directory and the working
//! directory are inputs here; the application reads them from the environment.
use vstd::prelude::*;

use crate::text::{all_ws, append, chars_of, is, lemma_trim_empty, slice, string_of, trim, trim_chars};

verus! {

/// `std::path::Path::join` on Unix, as `PathBuf::push` documents it: an absolute `rest`
/// replaces `base`; otherwise `rest` follows `base`, with a `/` between them when `base` is
/// non-empty and does not already end in one.
pub open spec fn joined_path(base: Seq<char>, rest: Seq<char>) -> Seq<char> {
    if is_absolute_path(rest) {
        rest
    } else if base.len() > 0 && base.last() != '/' {
        base + seq!['/'] + rest
    } else {
        base + rest
    }
}

/// `std::path::Path::is_absolute` on Unix: the path starts with the root `/`.
pub open spec fn is_absolute_path(path: Seq<char>) -> bool {
    path.len() > 0 && path[0] == '/'
}

/// `std::path::Path::parent`: the path without its last component, if it has one.
pub uninterp spec fn parent_path(path: Seq<char>) -> Option<Seq<char>>;

/// `std::path::Path::strip_prefix`: what remains of `path` after the leading components that
/// spell `base`, when `base` is a component-wise prefix of it.
pub uninterp spec fn stripped_path(path: Seq<char>, base: Seq<char>) -> Option<Seq<char>>;

/// `rest` joined onto `base` as `joined_path` states it (`Path::join` on Unix), as a string.
pub(crate) fn join_path(base: &str, rest: &str) -> (r: String)
    ensures
        r@ == joined_path(base@, rest@),
{
    let r = chars_of(rest);
    if r.len() > 0 && r[0] == '/' {
        return string_of(&r);
    }
    let mut out = chars_of(base);
    if out.len() > 0 && out[out.len() - 1] != '/' {
        out.push('/');
    }
    append(&mut out, &r);
    string_of(&out)
}

/// Whether `path` is absolute, as `is_absolute_path` states it (`Path::is_absolute` on Unix).
fn absolute(path: &str) -> (r: bool)
    ensures
        r == is_absolute_path(path@),
{
    let v = chars_of(path);
    v.len() > 0 && v[0] == '/'
}

/// `Path::parent`, as a string.
#[verifier::external_body]
fn parent_of(path: &str) -> (r: Option<String>)
    ensures
        crate::command::opt_view(r) == parent_path(path@),
{
    std::path::Path::new(path).parent().map(|p| p.to_string_lossy().into_owned())
}

/// `Path::strip_prefix`, as a string.
#[verifier::external_body]
fn strip_path_prefix(path: &str, base: &str) -> (r: Option<String>)
    ensures
        crate::command::opt_view(r) == stripped_path(path@, base@),
{
    std::path::Path::new(path).strip_prefix(base).ok().map(|p| p.to_string_lossy().into_owned())
}

/// `path` with a leading `~/` (or a bare `~`) replaced by `home`; any other path, or any path
/// when no home directory is known, unchanged.
pub open spec fn spec_expand(path: Seq<char>, home: Option<Seq<char>>) -> Seq<char> {
    if path.len() >= 2 && path.take(2) == "~/"@ {
        match home {
            Some(h) => joined_path(h, path.skip(2)),
            None => path,
        }
    } else if path == "~"@ {
        match home {
            Some(h) => h,
            None => path,
        }
    } else {
        path
    }
}

/// Expand a leading `~` in `path` to `home`.
pub fn expand_with_home(path: &str, home: Option<&str>) -> (r: String)
    ensures
        r@ == spec_expand(
            path@,
            match home {
                Some(h) => Some(h@),
                None => None,
            },
        ),
{
    let v = chars_of(path);
    if v.len() >= 2 && v[0] == '~' && v[1] == '/' {
        proof {
            reveal_strlit("~/");
            assert(v@.take(2) =~= "~/"@);
        }
        match home {
            Some(h) => {
                let rest = string_of(&slice(&v, 2, v.len()));
                join_path(h, rest.as_str())
            },
            None => string_of(&v),
        }
    } else {
        proof {
            reveal_strlit("~/");
            if v@.len() >= 2 {
                assert(v@.take(2)[0] == v@[0]);
                assert(v@.take(2)[1] == v@[1]);
            }
        }
        if is(&v, "~") {
            match home {
                Some(h) => string_of(&chars_of(h)),
                None => string_of(&v),
            }
        } else {
            string_of(&v)
        }
    }
}

/// The directory the file-relative paths of `file` resolve against: its parent (after `~`
/// expansion), prefixed by the working directory when that parent is relative.
pub open spec fn spec_base_dir_of(
    file: Seq<char>,
    home: Option<Seq<char>>,
    cwd: Option<Seq<char>>,
) -> Seq<char> {
    let parent = match parent_path(spec_expand(file, home)) {
        Some(p) => p,
        None => Seq::<char>::empty(),
    };
    if is_absolute_path(parent) {
        parent
    } else {
        match cwd {
            Some(c) => joined_path(c, parent),
            None => parent,
        }
    }
}

/// The absolute directory that `file`'s file-relative path fields resolve against.
pub fn base_dir_of_with_cwd(file: &str, home: Option<&str>, cwd: Option<&str>) -> (r: String)
    ensures
        r@ == spec_base_dir_of(
            file@,
            match home {
                Some(h) => Some(h@),
                None => None,
            },
            match cwd {
                Some(c) => Some(c@),
                None => None,
            },
        ),
{
    let expanded = expand_with_home(file, home);
    let parent = match parent_of(expanded.as_str()) {
        Some(p) => p,
        None => string_of(&Vec::new()),
    };
    if absolute(parent.as_str()) {
        return parent;
    }
    match cwd {
        Some(c) => join_path(c, parent.as_str()),
        None => parent,
    }
}

/// `path` resolved against `base`: blank stays blank; otherwise `~` is expanded and a
/// relative result is joined onto `base`.
pub open spec fn spec_resolve_against(
    base: Seq<char>,
    path: Seq<char>,
    home: Option<Seq<char>>,
) -> Seq<char> {
    if all_ws(path) {
        path
    } else {
        let expanded = spec_expand(path, home);
        if is_absolute_path(expanded) {
            expanded
        } else {
            joined_path(base, expanded)
        }
    }
}

/// `path` resolved against `base`. A blank `path` stays blank.
pub fn resolve_against(base: &str, path: &str, home: Option<&str>) -> (r: String)
    ensures
        r@ == spec_resolve_against(
            base@,
            path@,
            match home {
                Some(h) => Some(h@),
                None => None,
            },
        ),
{
    let v = chars_of(path);
    let t = trim_chars(&v);
    proof {
        lemma_trim_empty(v@);
    }
    if t.len() == 0 {
        return string_of(&v);
    }
    let expanded = expand_with_home(path, home);
    if absolute(expanded.as_str()) {
        return expanded;
    }
    join_path(base, expanded.as_str())
}

/// `path` relative to `base` when it lies under it (component-wise, without touching the
/// filesystem); otherwise, and when blank, unchanged.
pub open spec fn spec_relativize_under(base: Seq<char>, path: Seq<char>) -> Seq<char> {
    if all_ws(path) {
        path
    } else {
        match stripped_path(path, base) {
            Some(rest) => rest,
            None => path,
        }
    }
}

/// `path` re-encoded relative to `base` when it lies under it, else unchanged.
pub fn relativize_under(base: &str, path: &str) -> (r: String)
    ensures
        r@ == spec_relativize_under(base@, path@),
{
    let v = chars_of(path);
    let t = trim_chars(&v);
    proof {
        lemma_trim_empty(v@);
    }
    if t.len() == 0 {
        return string_of(&v);
    }
    match strip_path_prefix(path, base) {
        Some(rest) => rest,
        None => string_of(&v),
    }
}

/// An absolute path is not touched by `~` expansion.
proof fn lemma_expand_keeps_absolute(path: Seq<char>, home: Option<Seq<char>>)
    requires
        is_absolute_path(path),
    ensures
        spec_expand(path, home) == path,
{
    reveal_strlit("~/");
    reveal_strlit("~");
    if path.len() >= 2 {
        assert(path.take(2)[0] == path[0]);
    }
    assert("~"@[0] == '~');
}

/// Resolving a file-relative path against an absolute base directory gives an absolute path
/// for every non-blank input and leaves blank input as it is; an absolute input comes back
/// unchanged; and resolving is idempotent: resolving the result once more changes nothing.
pub proof fn lemma_resolve_against_absolute_base(base: Seq<char>, path: Seq<char>, home: Option<Seq<char>>)
    requires
        is_absolute_path(base),
    ensures
        all_ws(path) ==> spec_resolve_against(base, path, home) == path,
        !all_ws(path) ==> is_absolute_path(spec_resolve_against(base, path, home)),
        !all_ws(path) && is_absolute_path(path) ==> spec_resolve_against(base, path, home) == path,
        spec_resolve_against(base, spec_resolve_against(base, path, home), home)
            == spec_resolve_against(base, path, home),
{
    let r = spec_resolve_against(base, path, home);
    if !all_ws(path) {
        let expanded = spec_expand(path, home);
        if !is_absolute_path(expanded) {
            assert(r[0] == base[0]);
        }
        assert(is_absolute_path(r));
        if is_absolute_path(path) {
            lemma_expand_keeps_absolute(path, home);
        }
        assert(!all_ws(r)) by {
            assert(r[0] == '/');
        }
        lemma_expand_keeps_absolute(r, home);
    }
}

} // verus!
