//! File-system paths, held as strings. What std's `Path` computes from
//! them depends in general on the platform's path rules; the contracts here
//! state it only for paths that every platform reads alike.
use vstd::prelude::*;
use std::path::{Path, PathBuf};
use crate::text::{has_char, option_view};

verus! {

/// What follows the last `/` of `p` (all of `p` when it has none).
pub open spec fn after_last_slash(p: Seq<char>) -> Seq<char>
    decreases p.len(),
{
    if p.len() == 0 {
        p
    } else if p.last() == '/' {
        Seq::<char>::empty()
    } else {
        after_last_slash(p.drop_last()).push(p.last())
    }
}

/// `n` is one plain file name: not empty, not `.` or `..`, and with no
/// `/`, `\` or `:` in it.
pub open spec fn plain_file_name(n: Seq<char>) -> bool {
    &&& n.len() > 0
    &&& n != "."@
    &&& n != ".."@
    &&& !has_char(n, '/')
    &&& !has_char(n, '\\')
    &&& !has_char(n, ':')
}

/// A path that every platform splits at its `/`s alone: no `\` or `:` in
/// it, not starting with `//`, and ending in a plain file name.
pub open spec fn plain_path(p: Seq<char>) -> bool {
    &&& !has_char(p, '\\')
    &&& !has_char(p, ':')
    &&& !(p.len() >= 2 && p[0] == '/' && p[1] == '/')
    &&& plain_file_name(after_last_slash(p))
}

/// The index of the last `c` in `s`, or -1 where there is none.
pub open spec fn last_index_of(s: Seq<char>, c: char) -> int
    decreases s.len(),
{
    if s.len() == 0 {
        -1
    } else if s.last() == c {
        s.len() - 1
    } else {
        last_index_of(s.drop_last(), c)
    }
}

/// The stem of a file name, as std documents it: the whole name where it
/// holds no `.` or only a leading one, else what comes before its last `.`.
pub open spec fn stem_of(n: Seq<char>) -> Seq<char> {
    let k = last_index_of(n, '.');
    if k <= 0 {
        n
    } else {
        n.take(k)
    }
}

/// `n` is a run of consecutive characters of `p`.
pub open spec fn is_infix(n: Seq<char>, p: Seq<char>) -> bool {
    exists|i: int| 0 <= i && i + n.len() <= p.len() && #[trigger] p.subrange(i, i + n.len()) == n
}

/// A path that every platform reads alike, component by component: not
/// empty, no `\` or `:` in it, no two `/` in a row, no `/` at its end, and
/// no `.` component.
pub open spec fn clean_path(p: Seq<char>) -> bool {
    &&& p.len() > 0
    &&& !has_char(p, '\\')
    &&& !has_char(p, ':')
    &&& p.last() != '/'
    &&& forall|i: int| 0 <= i < p.len() - 1 ==> !(p[i] == '/' && #[trigger] p[i + 1] == '/')
    &&& forall|i: int|
        0 <= i < p.len() && #[trigger] p[i] == '.' ==> !((i == 0 || p[i - 1] == '/') && (i + 1 == p.len() || p[i + 1]
            == '/'))
}

/// The parent of a clean path: what comes before its last `/`; the root
/// where that is the leading `/`; the empty path where it has no `/`.
pub open spec fn clean_parent(p: Seq<char>) -> Seq<char> {
    let k = last_index_of(p, '/');
    if k < 0 {
        Seq::<char>::empty()
    } else if k == 0 {
        "/"@
    } else {
        p.take(k)
    }
}

/// What std documents of `Path::parent` and every platform shares: none
/// for the empty path and the root, and the documented parent of a clean
/// path.
pub open spec fn parent_fact(p: Seq<char>, r: Option<Seq<char>>) -> bool {
    &&& (p.len() == 0 || p == "/"@) ==> r is None
    &&& clean_path(p) ==> r == Some(clean_parent(p))
}

/// `c` separates path components on some platform.
pub open spec fn is_separator(c: char) -> bool {
    c == '/' || c == '\\'
}

/// What std documents of `PathBuf::push` with a plain file name and every
/// platform shares: onto an empty folder the name alone; onto a folder that
/// ends in `/`, the name right after it; else a separator, then the name.
pub open spec fn join_fact(dir: Seq<char>, name: Seq<char>, r: Seq<char>) -> bool {
    (plain_file_name(name) && !has_char(dir, '\\') && !has_char(dir, ':')) ==> if dir.len() == 0 {
        r == name
    } else if dir.last() == '/' {
        r == dir + name
    } else {
        &&& r.len() == dir.len() + 1 + name.len()
        &&& r.take(dir.len() as int) == dir
        &&& is_separator(r[dir.len() as int])
        &&& r.skip(dir.len() + 1 as int) == name
    }
}

/// std's `Path::parent`, as a string. Stated: `parent_fact`. Not stated:
/// the parent of other paths, which follows the platform's rules.
#[verifier::external_body]
pub fn path_parent(p: &str) -> (r: Option<String>)
    ensures
        parent_fact(p@, option_view(r)),
{
    Path::new(p).parent().map(|q| q.to_string_lossy().into_owned())
}

/// std's `PathBuf::push`: `name` joined onto `dir`, as a string. Stated:
/// `join_fact`. Not stated: which separator goes between (the platform's
/// own), nor the result for other names and folders.
#[verifier::external_body]
pub fn path_join(dir: &str, name: &str) -> (r: String)
    ensures
        join_fact(dir@, name@, r@),
{
    let mut path = PathBuf::from(dir);
    path.push(name);
    path.to_string_lossy().into_owned()
}

/// std's `Path::file_stem`, as a string when it is valid UTF-8. Stated: on
/// a plain path it is the documented stem of the last file name; any stem
/// is a run of the path's characters, holding no `/` (a separator on every
/// platform). Not stated: which part of other paths is their file name, as
/// that follows the platform's rules.
#[verifier::external_body]
pub fn path_file_stem(p: &str) -> (r: Option<String>)
    ensures
        plain_path(p@) ==> r is Some && r->Some_0@ == stem_of(after_last_slash(p@)),
        r matches Some(n) ==> !has_char(n@, '/') && is_infix(n@, p@),
{
    Path::new(p).file_stem().and_then(|s| s.to_str()).map(|s| s.to_string())
}

} // verus!
