//! Paths as text: components separated by `/`.
//!
//! The library does not touch the file system. It only puts paths together and takes the
//! final component of a path, and does both on the text of the path.

use vstd::prelude::*;
use vstd::string::{StrSliceExecFns, StringExecFns};

use crate::text::to_chars;

verus! {

/// The path of `name` in the directory `dir`. A `name` that starts with `/` stands for
/// itself; otherwise `name` follows `dir`, after a `/` unless `dir` is empty or ends in
/// one.
pub open spec fn joined(dir: Seq<char>, name: Seq<char>) -> Seq<char> {
    if name.len() > 0 && name[0] == '/' {
        name
    } else if dir.len() == 0 || dir.last() == '/' {
        dir + name
    } else {
        dir.push('/') + name
    }
}

/// Where the component of `path` that ends before position `to` starts: after the last
/// `/` before `to`, or at the start of the path.
pub open spec fn component_start(path: Seq<char>, to: int) -> int
    decreases to,
{
    if to <= 0 {
        0
    } else if path[to - 1] == '/' {
        to
    } else {
        component_start(path, to - 1)
    }
}

/// The bounds of the final component of the first `to` characters of `path`, if there is
/// one. A `/` at the end counts for nothing, nor does a component `.` that is not the
/// first. There is no final component where the path ends in `..`, or is empty, `/` or
/// `.`.
pub open spec fn file_name_bounds(path: Seq<char>, to: int) -> Option<(int, int)>
    decreases to,
{
    if to <= 0 || to > path.len() {
        None
    } else if path[to - 1] == '/' {
        file_name_bounds(path, to - 1)
    } else {
        let start = component_start(path, to);
        if to - start == 1 && path[start] == '.' {
            if start == 0 {
                None
            } else {
                file_name_bounds(path, start - 1)
            }
        } else if to - start == 2 && path[start] == '.' && path[start + 1] == '.' {
            None
        } else {
            Some((start, to))
        }
    }
}

/// The final component of `path`, if there is one.
pub open spec fn file_name_of(path: Seq<char>) -> Option<Seq<char>> {
    match file_name_bounds(path, path.len() as int) {
        Some((start, end)) => Some(path.subrange(start, end)),
        None => None,
    }
}

/// Whether `name` is the name of an entry of a directory: not empty, without `/`, and
/// neither `.` nor `..`.
pub open spec fn is_entry_name(name: Seq<char>) -> bool {
    &&& name.len() > 0
    &&& forall|i: int| 0 <= i < name.len() ==> #[trigger] name[i] != '/'
    &&& name != seq!['.']
    &&& name != seq!['.', '.']
}

/// A component starts within the path, at or before the position where it ends, and
/// holds no `/`.
pub proof fn lemma_component_start(path: Seq<char>, to: int)
    requires
        0 <= to <= path.len(),
    ensures
        0 <= component_start(path, to) <= to,
        forall|i: int| component_start(path, to) <= i < to ==> #[trigger] path[i] != '/',
        component_start(path, to) > 0 ==> path[component_start(path, to) - 1] == '/',
    decreases to,
{
    if to > 0 && path[to - 1] != '/' {
        lemma_component_start(path, to - 1);
    }
}

/// The final component lies within the path and is the name of an entry.
pub proof fn lemma_file_name_bounds(path: Seq<char>, to: int)
    requires
        0 <= to <= path.len(),
    ensures
        file_name_bounds(path, to) matches Some((start, end)) ==> 0 <= start < end <= to
            && is_entry_name(path.subrange(start, end)),
    decreases to,
{
    if to > 0 {
        if path[to - 1] == '/' {
            lemma_file_name_bounds(path, to - 1);
        } else {
            lemma_component_start(path, to);
            let start = component_start(path, to);
            if to - start == 1 && path[start] == '.' {
                if start > 0 {
                    lemma_file_name_bounds(path, start - 1);
                }
            } else if to - start == 2 && path[start] == '.' && path[start + 1] == '.' {
            } else {
                let name = path.subrange(start, to);
                assert(name.len() == to - start);
                if name == seq!['.'] {
                    assert(name[0] == '.');
                }
                if name == seq!['.', '.'] {
                    assert(name[0] == '.');
                    assert(name[1] == '.');
                }
            }
        }
    }
}

/// The name of an entry is the final component of its path in any directory.
pub proof fn lemma_file_name_of_joined(dir: Seq<char>, name: Seq<char>)
    requires
        is_entry_name(name),
    ensures
        file_name_of(joined(dir, name)) == Some(name),
{
    let path = joined(dir, name);
    let to = path.len() as int;
    let start = to - name.len();
    assert(path.subrange(start, to) =~= name);
    assert(path[to - 1] == name[name.len() - 1]);
    assert(forall|i: int| start <= i < to ==> path[i] == name[i - start]);
    lemma_component_within(path, start, to);
    if to - start == 1 && path[start] == '.' {
        assert(name =~= seq!['.']);
    }
    if to - start == 2 && path[start] == '.' && path[start + 1] == '.' {
        assert(name =~= seq!['.', '.']);
    }
}

/// A stretch of the path without `/` that begins at the start of the path, or after a
/// `/`, is a component.
proof fn lemma_component_within(path: Seq<char>, start: int, to: int)
    requires
        0 <= start <= to <= path.len(),
        forall|i: int| start <= i < to ==> #[trigger] path[i] != '/',
        start > 0 ==> path[start - 1] == '/',
    ensures
        component_start(path, to) == start,
    decreases to - start,
{
    if start < to {
        lemma_component_within(path, start, to - 1);
    }
}

/// The path of `name` in the directory `dir`.
pub fn join_path(dir: &str, name: &str) -> (path: String)
    ensures
        path@ == joined(dir@, name@),
{
    proof {
        reveal_strlit("/");
    }
    let name_chars = to_chars(name);
    if name_chars.len() > 0 && name_chars[0] == '/' {
        return String::from_str(name);
    }
    let dir_chars = to_chars(dir);
    let mut path = String::from_str(dir);
    if dir_chars.len() > 0 && dir_chars[dir_chars.len() - 1] != '/' {
        path.append("/");
        assert(path@ =~= dir@.push('/'));
    }
    path.append(name);
    path
}

/// The final component of `path`, if there is one.
pub fn file_name(path: &str) -> (name: Option<String>)
    ensures
        match name {
            Some(name) => file_name_of(path@) == Some(name@),
            None => file_name_of(path@) is None,
        },
{
    let chars = to_chars(path);
    let mut to: usize = chars.len();
    loop
        invariant
            chars@ == path@,
            to <= chars@.len(),
            file_name_bounds(path@, path@.len() as int) == file_name_bounds(path@, to as int),
        decreases to,
    {
        if to == 0 {
            return None;
        }
        if chars[to - 1] == '/' {
            to -= 1;
            continue;
        }
        let start: usize = find_component_start(&chars, to);
        if to - start == 1 && chars[start] == '.' {
            if start == 0 {
                return None;
            }
            to = start - 1;
            continue;
        }
        if to - start == 2 && chars[start] == '.' && chars[start + 1] == '.' {
            return None;
        }
        return Some(String::from_str(path.substring_char(start, to)));
    }
}

/// Finds where the component that ends before position `to` starts.
fn find_component_start(path: &Vec<char>, to: usize) -> (start: usize)
    requires
        to <= path@.len(),
    ensures
        start == component_start(path@, to as int),
        start <= to,
{
    let mut start: usize = to;
    while start > 0 && path[start - 1] != '/'
        invariant
            start <= to <= path@.len(),
            component_start(path@, to as int) == component_start(path@, start as int),
        decreases start,
    {
        start -= 1;
    }
    start
}

} // verus!
