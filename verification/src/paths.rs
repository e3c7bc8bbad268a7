//! Unix paths as text.
//!
//! A slash separates the parts of a path, and a path that begins with one begins at the root. No
//! other character means anything: a backslash or a colon is a character of a name like any other,
//! and no path has a drive or another prefix. Paths of a platform with other rules are none of
//! these, and the program does not hand them over.
use crate::text::{
    chars_of, concat2, concat3, find_last, find_last_exec, lemma_find_last, same_text, text_between,
};
use vstd::prelude::*;

verus! {

/// The part of `path` after its last slash.
pub open spec fn last_part(path: Seq<char>) -> Seq<char> {
    path.skip(find_last(path, '/') + 1)
}

/// The name of the file that `path` leads to: the last part, slashes at the end and parts that
/// name the directory itself left out. A path that ends with its parent has none.
pub open spec fn file_name(path: Seq<char>) -> Option<Seq<char>>
    decreases path.len(),
    via file_name_decreases
{
    let part = last_part(path);
    if part.len() == 0 || part == "."@ {
        if find_last(path, '/') < 0 {
            None
        } else {
            file_name(path.take(find_last(path, '/')))
        }
    } else if part == ".."@ {
        None
    } else {
        Some(part)
    }
}

#[via_fn]
proof fn file_name_decreases(path: Seq<char>) {
    lemma_find_last(path, '/');
}

pub fn file_name_exec(path: &str) -> (name: Option<String>)
    ensures
        match name {
            Some(name) => file_name(path@) == Some(name@),
            None => file_name(path@) is None,
        },
{
    let mut rest = chars_of(path);
    loop
        invariant
            file_name(path@) == file_name(rest@),
        decreases rest@.len(),
    {
        proof {
            lemma_find_last(rest@, '/');
        }
        let len: usize = rest.len();
        let slash = find_last_exec(&rest, '/');
        let start: usize = match slash {
            Some(slash) => slash + 1,
            None => 0,
        };
        let part = text_between(&rest, start, len);
        assert(part@ =~= last_part(rest@));
        if part.as_str().is_empty() || same_text(part.as_str(), ".") {
            match slash {
                Some(slash) => {
                    let ghost before = rest@;
                    rest.truncate(slash);
                    assert(rest@ =~= before.take(slash as int));
                },
                None => {
                    return None;
                },
            }
        } else if same_text(part.as_str(), "..") {
            return None;
        } else {
            return Some(part);
        }
    }
}

/// Whether one of the parts of `path` is the parent of the part before it.
pub open spec fn leads_up(path: Seq<char>) -> bool
    decreases path.len(),
    via leads_up_decreases
{
    last_part(path) == ".."@ || (find_last(path, '/') >= 0 && leads_up(
        path.take(find_last(path, '/')),
    ))
}

#[via_fn]
proof fn leads_up_decreases(path: Seq<char>) {
    lemma_find_last(path, '/');
}

pub fn leads_up_exec(path: &str) -> (up: bool)
    ensures
        up == leads_up(path@),
{
    let mut rest = chars_of(path);
    loop
        invariant
            leads_up(path@) == leads_up(rest@),
        decreases rest@.len(),
    {
        proof {
            lemma_find_last(rest@, '/');
        }
        let len: usize = rest.len();
        let slash = find_last_exec(&rest, '/');
        let start: usize = match slash {
            Some(slash) => slash + 1,
            None => 0,
        };
        let part = text_between(&rest, start, len);
        assert(part@ =~= last_part(rest@));
        if same_text(part.as_str(), "..") {
            return true;
        }
        match slash {
            Some(slash) => {
                let ghost before = rest@;
                rest.truncate(slash);
                assert(rest@ =~= before.take(slash as int));
            },
            None => {
                return false;
            },
        }
    }
}

/// `path`, which does not begin with a slash, inside the directory `base`.
pub open spec fn joined(base: Seq<char>, path: Seq<char>) -> Seq<char> {
    if base.len() == 0 || base.last() == '/' {
        base + path
    } else {
        base + "/"@ + path
    }
}

pub fn join_paths(base: &str, path: &str) -> (whole: String)
    ensures
        whole@ == joined(base@, path@),
{
    let chars = chars_of(base);
    if chars.len() == 0 || chars[chars.len() - 1] == '/' {
        concat2(base, path)
    } else {
        concat3(base, "/", path)
    }
}

// Laws.

/// A path leads up exactly where one of the parts between its slashes is `..`.
pub proof fn paths_lead_up_by_their_parts(before: Seq<char>, after: Seq<char>)
    ensures
        leads_up(before + seq!['/'] + after) <==> leads_up(before) || leads_up(after),
        !after.contains('/') ==> (leads_up(after) <==> after == seq!['.', '.']),
    decreases after.len(),
{
    reveal_strlit("..");
    assert(".."@ =~= seq!['.', '.']);
    let path = before + seq!['/'] + after;
    let at = find_last(after, '/');
    lemma_find_last(after, '/');
    if at < 0 {
        assert forall|k: int| before.len() < k < path.len() implies path[k] != '/' by {
            assert(path[k] == after[k - before.len() - 1]);
        }
        lemma_find_last_is(path, '/', before.len() as int);
        assert(last_part(path) =~= after);
        assert(path.take(before.len() as int) =~= before);
        assert(last_part(after) =~= after);
    } else {
        assert(after.contains(after[at]));
        let inner = after.take(at);
        paths_lead_up_by_their_parts(before, inner);
        let found = before.len() + 1 + at;
        assert(path[found] == after[at]);
        assert forall|k: int| found < k < path.len() implies path[k] != '/' by {
            assert(path[k] == after[k - before.len() - 1]);
        }
        lemma_find_last_is(path, '/', found);
        assert(path.take(found) =~= before + seq!['/'] + inner);
        assert(last_part(path) =~= last_part(after));
    }
}

proof fn lemma_find_last_is(text: Seq<char>, c: char, at: int)
    requires
        0 <= at < text.len(),
        text[at] == c,
        forall|k: int| at < k < text.len() ==> text[k] != c,
    ensures
        find_last(text, c) == at,
{
    lemma_find_last(text, c);
}

/// The name of a file is what stands after the last slash. A slash at the end, and a part that is
/// the directory itself, are passed over. A path that ends with its parent names no file.
pub proof fn files_are_named_by_the_last_part(directory: Seq<char>, name: Seq<char>)
    requires
        !name.contains('/'),
    ensures
        ({
            let path = directory + seq!['/'] + name;
            let passed_over = name.len() == 0 || name == seq!['.'];
            let up = name == seq!['.', '.'];
            &&& passed_over ==> file_name(path) == file_name(directory) && file_name(name) is None
            &&& up ==> file_name(path) is None && file_name(name) is None
            &&& !passed_over && !up ==> file_name(path) == Some(name) && file_name(name) == Some(
                name,
            )
        }),
{
    reveal_strlit(".");
    reveal_strlit("..");
    assert("."@ =~= seq!['.']);
    assert(".."@ =~= seq!['.', '.']);
    let path = directory + seq!['/'] + name;
    assert forall|k: int| directory.len() < k < path.len() implies path[k] != '/' by {
        assert(path[k] == name[k - directory.len() - 1]);
    }
    lemma_find_last_is(path, '/', directory.len() as int);
    assert(last_part(path) =~= name);
    assert(path.take(directory.len() as int) =~= directory);
    lemma_find_last(name, '/');
    assert(find_last(name, '/') < 0) by {
        if find_last(name, '/') >= 0 {
            assert(name.contains(name[find_last(name, '/')]));
        }
    }
    assert(last_part(name) =~= name);
}

/// A path inside a directory is that of the directory, a slash, and the path: the slash is not
/// doubled where the directory ends with one, nor put before a path inside no directory.
pub proof fn paths_are_joined_by_one_slash(base: Seq<char>, path: Seq<char>)
    ensures
        joined(Seq::empty(), path) == path,
        joined(base + seq!['/'], path) == base + seq!['/'] + path,
        base.len() > 0 && base.last() != '/' ==> joined(base, path) == base + seq!['/'] + path,
{
    reveal_strlit("/");
    assert("/"@ =~= seq!['/']);
    assert(Seq::<char>::empty() + path =~= path);
    assert((base + seq!['/']).last() == '/');
}

} // verus!
