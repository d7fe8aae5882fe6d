//! Reading the output of the tools that build a vcpkg tree: the progress
//! lines of `vcpkg install` and the version banner of Apple's clang.

use vstd::prelude::*;
use crate::text::{
    char_vec, find_byte, matches_at, find_char, find_first, find_last, find_last_char, is_prefix, parse_u64,
    parse_u64_spec, skip_prefixes, has_infix, has_infix_str, string_of, strip_all,
};

verus! {

/// A character with Unicode's White_Space property, as `char::is_whitespace`
/// tests it.
pub open spec fn is_white(c: char) -> bool {
    let u = c as u32;
    (0x09 <= u && u <= 0x0d) || u == 0x20 || u == 0x85 || u == 0xa0 || u == 0x1680 || (0x2000
        <= u && u <= 0x200a) || u == 0x2028 || u == 0x2029 || u == 0x202f || u == 0x205f || u
        == 0x3000
}

/// Whether `c` is white space.
fn white(c: char) -> (r: bool)
    ensures
        r == is_white(c),
{
    let u = c as u32;
    (0x09 <= u && u <= 0x0d) || u == 0x20 || u == 0x85 || u == 0xa0 || u == 0x1680 || (0x2000
        <= u && u <= 0x200a) || u == 0x2028 || u == 0x2029 || u == 0x202f || u == 0x205f || u
        == 0x3000
}

/// `s` without its leading white space.
pub open spec fn trim_start_spec(s: Seq<char>) -> Seq<char>
    decreases s.len(),
{
    if s.len() > 0 && is_white(s[0]) {
        trim_start_spec(s.drop_first())
    } else {
        s
    }
}

/// `s` without its trailing white space.
pub open spec fn trim_end_spec(s: Seq<char>) -> Seq<char>
    decreases s.len(),
{
    if s.len() > 0 && is_white(s.last()) {
        trim_end_spec(s.drop_last())
    } else {
        s
    }
}

/// `s` without white space at either end, as `str::trim` gives it.
pub open spec fn trim_spec(s: Seq<char>) -> Seq<char> {
    trim_end_spec(trim_start_spec(s))
}

/// The bounds of `cs@[from..to]` once trimmed.
fn trim_bounds(cs: &[char], from: usize, to: usize) -> (r: (usize, usize))
    requires
        from <= to <= cs@.len(),
    ensures
        from <= r.0 <= r.1 <= to,
        cs@.subrange(r.0 as int, r.1 as int) == trim_spec(cs@.subrange(from as int, to as int)),
{
    let mut a: usize = from;
    while a < to && white(cs[a])
        invariant
            from <= a <= to <= cs@.len(),
            trim_start_spec(cs@.subrange(from as int, to as int)) == trim_start_spec(
                cs@.subrange(a as int, to as int),
            ),
        decreases to - a,
    {
        assert(cs@.subrange(a as int, to as int).drop_first() =~= cs@.subrange(a + 1, to as int));
        a += 1;
    }
    let mut b: usize = to;
    while b > a && white(cs[b - 1])
        invariant
            from <= a <= b <= to <= cs@.len(),
            trim_start_spec(cs@.subrange(from as int, to as int)) == cs@.subrange(
                a as int,
                to as int,
            ),
            trim_end_spec(cs@.subrange(a as int, to as int)) == trim_end_spec(
                cs@.subrange(a as int, b as int),
            ),
        decreases b - a,
    {
        assert(cs@.subrange(a as int, b as int).drop_last() =~= cs@.subrange(a as int, b - 1));
        b -= 1;
    }
    (a, b)
}

/// The counts of a progress field `n/m`; `(0, 0)` unless both parse.
pub open spec fn progress_counts(p: Seq<char>) -> (u64, u64) {
    match find_first(p, '/') {
        Some(k) => match (
            parse_u64_spec(p.subrange(0, k)),
            parse_u64_spec(p.subrange(k + 1, p.len() as int)),
        ) {
            (Some(a), Some(b)) => (a, b),
            _ => (0, 0),
        },
        None => (0, 0),
    }
}

/// What a line of `vcpkg install` output announces, if it announces the
/// build of a package: `Starting package 3/10: zlib:x64-windows` gives the
/// package, the triplet and the two counts.
pub open spec fn build_line_spec(line: Seq<char>) -> Option<(Seq<char>, Seq<char>, u64, u64)> {
    if !is_prefix("Starting package "@, line) {
        None
    } else {
        let rest = strip_all(line, "Starting package "@);
        match find_first(rest, ':') {
            None => None,
            Some(c) => {
                let entry = trim_spec(rest.subrange(c + 1, rest.len() as int));
                match find_last(entry, ':') {
                    None => None,
                    Some(k) => {
                        let counts = progress_counts(rest.subrange(0, c));
                        Some(
                            (
                                entry.subrange(0, k),
                                entry.subrange(k + 1, entry.len() as int),
                                counts.0,
                                counts.1,
                            ),
                        )
                    },
                }
            },
        }
    }
}

/// The counts of the progress field `cs@[from..to]`.
fn counts_of(cs: &[char], from: usize, to: usize) -> (r: (u64, u64))
    requires
        from <= to <= cs@.len(),
    ensures
        r == progress_counts(cs@.subrange(from as int, to as int)),
{
    let ghost p = cs@.subrange(from as int, to as int);
    match find_char(cs, from, to, '/') {
        Some(k) => {
            assert(p.subrange(0, k - from) =~= cs@.subrange(from as int, k as int));
            assert(p.subrange(k - from + 1, p.len() as int) =~= cs@.subrange(k + 1, to as int));
            match (parse_u64(cs, from, k), parse_u64(cs, k + 1, to)) {
                (Some(a), Some(b)) => (a, b),
                _ => (0, 0),
            }
        },
        None => (0, 0),
    }
}

/// Reads a line of `vcpkg install` output that announces the build of a
/// package, giving the package, the triplet and the progress counts, which
/// are 0 where they do not parse.
pub fn parse_build_line(line: &str) -> (r: Option<(String, String, u64, u64)>)
    ensures
        match build_line_spec(line@) {
            None => r is None,
            Some(t) => match r {
                Some(x) => x.0@ == t.0 && x.1@ == t.1 && x.2 == t.2 && x.3 == t.3,
                None => false,
            },
        },
{
    let cs = char_vec(line);
    let lead = char_vec("Starting package ");
    let n = cs.len();
    if !matches_at(cs.as_slice(), lead.as_slice(), 0) {
        return None;
    }
    let start = skip_prefixes(cs.as_slice(), lead.as_slice());
    let ghost rest = cs@.subrange(start as int, n as int);
    let colon = match find_char(cs.as_slice(), start, n, ':') {
        Some(c) => c,
        None => return None,
    };
    assert(rest.subrange(colon - start + 1, rest.len() as int) =~= cs@.subrange(
        colon + 1,
        n as int,
    ));
    assert(rest.subrange(0, colon - start) =~= cs@.subrange(start as int, colon as int));
    let (a, b) = trim_bounds(cs.as_slice(), colon + 1, n);
    let ghost entry = cs@.subrange(a as int, b as int);
    let k = match find_last_char(cs.as_slice(), a, b, ':') {
        Some(k) => k,
        None => return None,
    };
    assert(entry.subrange(0, k - a) =~= cs@.subrange(a as int, k as int));
    assert(entry.subrange(k - a + 1, entry.len() as int) =~= cs@.subrange(k + 1, b as int));
    let pkg = string_of(cs.as_slice(), a, k);
    let triplet = string_of(cs.as_slice(), k + 1, b);
    let counts = counts_of(cs.as_slice(), start, colon);
    Some((pkg, triplet, counts.0, counts.1))
}

/// Whether `b` is valid UTF-8; named for `std::str::from_utf8`.
pub uninterp spec fn is_utf8(b: Seq<u8>) -> bool;

/// Relies on std::str::from_utf8: it succeeds exactly on valid UTF-8, which
/// depends on the bytes alone; ASCII bytes are valid UTF-8.
#[verifier::external_body]
fn valid_utf8(b: &[u8]) -> (r: bool)
    ensures
        r == is_utf8(b@),
        (forall|i: int| 0 <= i < b@.len() ==> #[trigger] b@[i] < 128u8) ==> r,
{
    std::str::from_utf8(b).is_ok()
}

/// Bytes read one for one as characters (exact for ASCII).
pub open spec fn byte_chars(b: Seq<u8>) -> Seq<char> {
    b.map_values(|x: u8| x as char)
}

/// The major version on a line of `clang --version` output that starts with
/// `Apple clang version `: what comes before the first `.`.
pub open spec fn major_version_spec(line: Seq<u8>) -> Option<u64> {
    let rest = strip_all(byte_chars(line), "Apple clang version "@);
    match find_first(rest, '.') {
        Some(k) => parse_u64_spec(rest.subrange(0, k)),
        None => parse_u64_spec(rest),
    }
}

/// The line of `b` that starts at its beginning, without the line feed and
/// a carriage return before it, and where the next line starts.
pub open spec fn first_line(b: Seq<u8>) -> (Seq<u8>, int) {
    match find_first(b, 10u8) {
        Some(i) => if 0 <= i < b.len() {
            let l = b.subrange(0, i);
            (
                if l.len() > 0 && l.last() == 13u8 {
                    l.drop_last()
                } else {
                    l
                },
                i + 1,
            )
        } else {
            (b, b.len() as int)
        },
        None => (b, b.len() as int),
    }
}

/// The Apple clang major version in `clang --version` output: read from the
/// first valid UTF-8 line that starts with `Apple clang version `.
pub open spec fn clang_version_spec(b: Seq<u8>) -> Option<u64>
    decreases b.len(),
{
    if b.len() == 0 {
        None
    } else {
        let (line, next) = first_line(b);
        if is_utf8(line) && is_prefix("Apple clang version "@, byte_chars(line)) {
            major_version_spec(line)
        } else {
            clang_version_spec(b.subrange(next, b.len() as int))
        }
    }
}

/// The major version on a line of `clang --version` output that starts with
/// `Apple clang version `.
pub fn major_version(line: &[u8]) -> (r: Option<u64>)
    ensures
        r == major_version_spec(line@),
{
    let mut cs: Vec<char> = Vec::new();
    let mut i: usize = 0;
    while i < line.len()
        invariant
            i <= line@.len(),
            cs@ == byte_chars(line@.subrange(0, i as int)),
        decreases line@.len() - i,
    {
        cs.push(line[i] as char);
        i += 1;
        assert(cs@ =~= byte_chars(line@.subrange(0, i as int)));
    }
    assert(line@.subrange(0, i as int) =~= line@);
    let lead = char_vec("Apple clang version ");
    let n = cs.len();
    let start = skip_prefixes(cs.as_slice(), lead.as_slice());
    let ghost rest = cs@.subrange(start as int, n as int);
    match find_char(cs.as_slice(), start, n, '.') {
        Some(k) => {
            assert(rest.subrange(0, k - start) =~= cs@.subrange(start as int, k as int));
            parse_u64(cs.as_slice(), start, k)
        },
        None => parse_u64(cs.as_slice(), start, n),
    }
}

/// Whether a line begins with `Apple clang version `.
fn is_clang_banner(line: &[u8]) -> (r: bool)
    ensures
        r == is_prefix("Apple clang version "@, byte_chars(line@)),
{
    let lead = char_vec("Apple clang version ");
    if lead.len() > line.len() {
        return false;
    }
    let mut j: usize = 0;
    while j < lead.len()
        invariant
            lead@ == "Apple clang version "@,
            lead@.len() <= line@.len(),
            j <= lead@.len(),
            forall|k: int| 0 <= k < j ==> byte_chars(line@)[k] == lead@[k],
        decreases lead@.len() - j,
    {
        if line[j] as char != lead[j] {
            assert(byte_chars(line@).subrange(0, lead@.len() as int)[j as int] != lead@[j as int]);
            return false;
        }
        j += 1;
    }
    assert(byte_chars(line@).subrange(0, lead@.len() as int) =~= lead@);
    true
}

/// The major version of Apple's clang from the output of `clang --version`,
/// if the output names one.
pub fn parse_apple_clang_version(bytes: &[u8]) -> (r: Option<u64>)
    ensures
        r == clang_version_spec(bytes@),
{
    let n = bytes.len();
    let mut pos: usize = 0;
    assert(bytes@.subrange(0, n as int) =~= bytes@);
    while pos < n
        invariant
            n == bytes@.len(),
            pos <= n,
            clang_version_spec(bytes@) == clang_version_spec(bytes@.subrange(pos as int, n as int)),
        decreases n - pos,
    {
        let ghost b = bytes@.subrange(pos as int, n as int);
        let (end, next) = match find_byte(bytes, pos, n, 10u8) {
            Some(i) => {
                if i > pos && bytes[i - 1] == 13u8 {
                    (i - 1, i + 1)
                } else {
                    (i, i + 1)
                }
            },
            None => (n, n),
        };
        let mut line: Vec<u8> = Vec::new();
        let mut k: usize = pos;
        while k < end
            invariant
                n == bytes@.len(),
                pos <= k <= end <= n,
                line@ == bytes@.subrange(pos as int, k as int),
            decreases end - k,
        {
            line.push(bytes[k]);
            k += 1;
            assert(line@ =~= bytes@.subrange(pos as int, k as int));
        }
        assert(first_line(b).0 =~= line@);
        assert(first_line(b).1 == next - pos);
        assert(b.subrange(next - pos, b.len() as int) =~= bytes@.subrange(next as int, n as int));
        if valid_utf8(line.as_slice()) && is_clang_banner(line.as_slice()) {
            return major_version(line.as_slice());
        }
        pos = next;
    }
    None
}

/// Whether vcpkg must be built again after `vcpkg update`: when the update
/// failed, or its output warns that the sources changed.
pub open spec fn needs_bootstrap_spec(update_succeeded: bool, output: Seq<char>) -> bool {
    !update_succeeded || has_infix(output, "Warning: Different source is available for vcpkg"@)
}

/// Whether vcpkg must be built again, given whether `vcpkg update`
/// succeeded and what it printed.
pub fn needs_bootstrap(update_succeeded: bool, output: &str) -> (r: bool)
    ensures
        r == needs_bootstrap_spec(update_succeeded, output@),
{
    !update_succeeded || has_infix_str(output, "Warning: Different source is available for vcpkg")
}

} // verus!
