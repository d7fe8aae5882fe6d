//! Reading the location of a vcpkg tree from the files that
//! `vcpkg integrate install` writes.

use vstd::prelude::*;
use crate::text::{char_vec, find_char, find_first, matches_at, occurs_at, string_of};

verus! {

/// `i` is where `p` first occurs in `s` at or after `from`.
pub open spec fn is_first_match(s: Seq<char>, p: Seq<char>, from: int, i: int) -> bool {
    from <= i && occurs_at(s, p, i) && forall|j: int| from <= j < i ==> !occurs_at(s, p, j)
}

/// Where `p` first occurs in `s` at or after `from`.
pub open spec fn first_match(s: Seq<char>, p: Seq<char>, from: int) -> Option<int> {
    if exists|i: int| is_first_match(s, p, from, i) {
        Some(choose|i: int| is_first_match(s, p, from, i))
    } else {
        None
    }
}

/// Where `p` first occurs in `s` at or after `from`.
fn find_from(s: &[char], p: &[char], from: usize) -> (r: Option<usize>)
    requires
        from <= s@.len(),
    ensures
        match r {
            Some(i) => first_match(s@, p@, from as int) == Some(i as int),
            None => first_match(s@, p@, from as int) is None,
        },
{
    let mut i: usize = from;
    while i < s.len()
        invariant
            from <= i <= s@.len(),
            forall|j: int| from <= j < i ==> !occurs_at(s@, p@, j),
        decreases s@.len() - i,
    {
        if matches_at(s, p, i) {
            assert(is_first_match(s@, p@, from as int, i as int));
            assert forall|k: int| is_first_match(s@, p@, from as int, k) implies k == i by {
                if k < i {
                    assert(!occurs_at(s@, p@, k));
                } else if k > i {
                    assert(!occurs_at(s@, p@, i as int));
                }
            }
            return Some(i);
        }
        i += 1;
    }
    if matches_at(s, p, i) {
        assert(is_first_match(s@, p@, from as int, i as int));
        assert forall|k: int| is_first_match(s@, p@, from as int, k) implies k == i by {
            if k < i {
                assert(!occurs_at(s@, p@, k));
            } else if k > i {
                assert(!occurs_at(s@, p@, i as int));
            }
        }
        return Some(i);
    }
    assert forall|k: int| !is_first_match(s@, p@, from as int, k) by {
        if is_first_match(s@, p@, from as int, k) && k > i {
            assert(!occurs_at(s@, p@, k));
        }
    }
    None
}

/// The project path on a line of `vcpkg.user.targets`: the text between the
/// first `Project="` and the next `"` (or the next `Project="`), when that
/// text is not empty.
pub open spec fn project_path_spec(line: Seq<char>) -> Option<Seq<char>> {
    let key = "Project=\""@;
    match first_match(line, key, 0) {
        None => None,
        Some(i) => {
            let after = i + key.len();
            let end = match first_match(line, key, after) {
                Some(j) => j,
                None => line.len() as int,
            };
            let seg = line.subrange(after, end);
            if seg.len() == 0 {
                None
            } else {
                match find_first(seg, '"') {
                    Some(q) => Some(seg.subrange(0, q)),
                    None => Some(seg),
                }
            }
        },
    }
}

/// The project path named on a line of `vcpkg.user.targets`, if the line
/// names one; the tree's root is four levels above it.
pub fn project_path(line: &str) -> (r: Option<String>)
    ensures
        match project_path_spec(line@) {
            Some(p) => r is Some && r->0@ == p,
            None => r is None,
        },
{
    let cs = char_vec(line);
    let key = char_vec("Project=\"");
    let i = match find_from(cs.as_slice(), key.as_slice(), 0) {
        Some(i) => i,
        None => return None,
    };
    assert(is_first_match(cs@, key@, 0, i as int));
    let len = cs.len();
    assert(i + key@.len() <= len);
    let after = i + key.len();
    let end = match find_from(cs.as_slice(), key.as_slice(), after) {
        Some(j) => {
            assert(is_first_match(cs@, key@, after as int, j as int));
            j
        },
        None => cs.len(),
    };
    assert(is_first_match(cs@, key@, after as int, end as int) || end == cs@.len());
    if end == after {
        return None;
    }
    let ghost seg = cs@.subrange(after as int, end as int);
    match find_char(cs.as_slice(), after, end, '"') {
        Some(q) => {
            assert(seg.subrange(0, q - after) =~= cs@.subrange(after as int, q as int));
            Some(string_of(cs.as_slice(), after, q))
        },
        None => Some(string_of(cs.as_slice(), after, end)),
    }
}

} // verus!
