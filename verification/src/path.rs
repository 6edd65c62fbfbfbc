//! Unix paths as texts.

use crate::split::{lemma_parts_hold_none, split, split_on};
use crate::text::{same_text, starts_with, texts, to_chars};
use vstd::prelude::*;

verus! {

/// A part of a path between slashes that names something.
pub open spec fn names_something(part: Seq<char>) -> bool {
    part.len() > 0 && part != "."@
}

/// The last part of a path that names something; none where there is no such part or where it
/// leads up.
pub open spec fn last_name(parts: Seq<Seq<char>>) -> Option<Seq<char>>
    decreases parts.len(),
{
    if parts.len() == 0 {
        None
    } else if !names_something(parts.last()) {
        last_name(parts.drop_last())
    } else if parts.last() == ".."@ {
        None
    } else {
        Some(parts.last())
    }
}

/// The name of what a path leads to.
pub fn file_name(path: &str) -> (name: Option<String>)
    ensures
        crate::text::opt_text(name) == last_name(split_on(path@, '/')),
{
    let parts = split(to_chars(path).as_slice(), '/');
    let ghost cut = texts(parts@);
    let mut n = parts.len();
    assert(cut.take(n as int) =~= cut);
    while n > 0
        invariant
            n <= parts@.len(),
            cut == texts(parts@),
            cut == split_on(path@, '/'),
            last_name(cut) == last_name(cut.take(n as int)),
        decreases n,
    {
        n = n - 1;
        assert(cut.take(n + 1).drop_last() =~= cut.take(n as int));
        assert(cut.take(n + 1).last() == parts@[n as int]@);
        if !parts[n].as_str().is_empty() && !same_text(parts[n].as_str(), ".") {
            if same_text(parts[n].as_str(), "..") {
                return None;
            }
            return Some(parts[n].clone());
        }
    }
    None
}

/// A path below a directory. A path that starts at the root stays as it is.
pub open spec fn joined(dir: Seq<char>, path: Seq<char>) -> Seq<char> {
    if path.len() > 0 && path[0] == '/' {
        path
    } else if dir.len() > 0 && dir.last() != '/' {
        dir + "/"@ + path
    } else {
        dir + path
    }
}

/// Different names lead to different places below a directory.
pub(crate) proof fn lemma_joined_differ(dir: Seq<char>, a: Seq<char>, b: Seq<char>)
    requires
        a != b,
        a.len() == 0 || a[0] != '/',
        b.len() == 0 || b[0] != '/',
    ensures
        joined(dir, a) != joined(dir, b),
{
    reveal_strlit("/");
    let head = if dir.len() > 0 && dir.last() != '/' {
        dir + "/"@
    } else {
        dir
    };
    assert(joined(dir, a) == head + a);
    assert(joined(dir, b) == head + b);
    assert((head + a).skip(head.len() as int) =~= a);
    assert((head + b).skip(head.len() as int) =~= b);
}

/// The last name of a path does not start with a slash.
pub(crate) proof fn lemma_last_name(path: Seq<char>)
    ensures
        last_name(split_on(path, '/')) matches Some(name) ==> name.len() > 0 && name[0] != '/',
{
    lemma_parts_hold_none(path, '/');
    lemma_last_of(split_on(path, '/'));
}

/// The last name of parts is one of them.
proof fn lemma_last_of(parts: Seq<Seq<char>>)
    ensures
        last_name(parts) matches Some(name) ==> name.len() > 0 && exists|i: int|
            0 <= i < parts.len() && #[trigger] parts[i] == name,
    decreases parts.len(),
{
    if parts.len() > 0 {
        let front = parts.drop_last();
        lemma_last_of(front);
        if let Some(name) = last_name(parts) {
            if names_something(parts.last()) {
                assert(parts[parts.len() - 1] == name);
            } else {
                let i = choose|i: int| 0 <= i < front.len() && #[trigger] front[i] == name;
                assert(parts[i] == name);
            }
        }
    }
}

/// A path below a directory.
pub fn join(dir: &str, path: &str) -> (whole: String)
    ensures
        whole@ == joined(dir@, path@),
{
    proof {
        reveal_strlit("/");
    }
    if starts_with(path, "/") {
        assert(path@[0] == "/"@[0]);
        return path.to_owned();
    }
    assert(!(path@.len() > 0 && path@[0] == '/')) by {
        if path@.len() > 0 && path@[0] == '/' {
            assert("/"@ =~= path@.subrange(0, 1));
        }
    }
    let ends = crate::text::ends_with(dir, "/");
    assert(ends == (dir@.len() > 0 && dir@.last() == '/')) by {
        if ends {
            assert(dir@.subrange(dir@.len() - 1, dir@.len() as int)[0] == "/"@[0]);
        }
        if dir@.len() > 0 && dir@.last() == '/' {
            assert("/"@ =~= dir@.subrange(dir@.len() - 1, dir@.len() as int));
        }
    }
    let mut whole = dir.to_owned();
    if !dir.is_empty() && !ends {
        whole.push_str("/");
    }
    whole.push_str(path);
    whole
}

/// A path below a directory: with one slash between them, which is put there where the directory
/// does not end in one. A path from the root on stays as it is.
pub proof fn law_below_directory(dir: Seq<char>, path: Seq<char>)
    requires
        dir.len() > 0,
        dir[dir.len() - 1] != '/',
    ensures
        path.len() > 0 && path[0] == '/' ==> joined(dir, path) == path,
        path.len() == 0 || path[0] != '/' ==> joined(dir, path) == dir + seq!['/'] + path && joined(
            dir + seq!['/'],
            path,
        ) == dir + seq!['/'] + path && joined(Seq::empty(), path) == path,
{
    reveal_strlit("/");
    assert("/"@ =~= seq!['/']);
    assert(Seq::<char>::empty() + path =~= path);
}

} // verus!
