//! Character-level string helpers shared by the parsers and path builders.

use vstd::prelude::*;

verus! {

/// `p` is a prefix of `s`.
pub open spec fn is_prefix<A>(p: Seq<A>, s: Seq<A>) -> bool {
    p.len() <= s.len() && s.subrange(0, p.len() as int) == p
}

/// `p` occurs in `s` starting at position `i`.
pub open spec fn occurs_at<A>(s: Seq<A>, p: Seq<A>, i: int) -> bool {
    0 <= i && i + p.len() <= s.len() && s.subrange(i, i + p.len()) == p
}

/// `p` occurs somewhere in `s`.
pub open spec fn has_infix<A>(s: Seq<A>, p: Seq<A>) -> bool {
    exists|i: int| occurs_at(s, p, i)
}

/// What is left of `s` once every leading copy of `p` is removed.
pub open spec fn strip_all<A>(s: Seq<A>, p: Seq<A>) -> Seq<A>
    decreases s.len(),
{
    if p.len() > 0 && is_prefix(p, s) {
        strip_all(s.subrange(p.len() as int, s.len() as int), p)
    } else {
        s
    }
}

/// The views of a sequence of strings.
pub open spec fn strs(v: Seq<String>) -> Seq<Seq<char>> {
    v.map_values(|s: String| s@)
}

/// Whether `v` holds a string equal to `s`.
pub fn holds_string(v: &Vec<String>, s: &String) -> (r: bool)
    ensures
        r == strs(v@).contains(s@),
{
    let mut i: usize = 0;
    while i < v.len()
        invariant
            i <= v@.len(),
            forall|k: int| 0 <= k < i ==> v@[k]@ != s@,
        decreases v@.len() - i,
    {
        if v[i] == *s {
            assert(strs(v@)[i as int] == s@);
            return true;
        }
        i += 1;
    }
    assert(!strs(v@).contains(s@)) by {
        if strs(v@).contains(s@) {
            let k = choose|k: int| 0 <= k < strs(v@).len() && strs(v@)[k] == s@;
            assert(v@[k]@ == s@);
        }
    }
    false
}

/// Relies on String::push: the character is appended at the end.
#[verifier::external_body]
pub(crate) fn push_char(s: &mut String, c: char)
    ensures
        final(s)@ == old(s)@.push(c),
{
    s.push(c);
}

/// The characters of `s`, in order.
pub fn char_vec(s: &str) -> (r: Vec<char>)
    ensures
        r@ == s@,
{
    let n = s.unicode_len();
    let mut r: Vec<char> = Vec::new();
    let mut i: usize = 0;
    while i < n
        invariant
            n == s@.len(),
            i <= n,
            r@ == s@.subrange(0, i as int),
        decreases n - i,
    {
        r.push(s.get_char(i));
        i += 1;
        assert(r@ =~= s@.subrange(0, i as int));
    }
    assert(r@ =~= s@);
    r
}

/// The string made of the characters `cs@[from..to]`.
pub fn string_of(cs: &[char], from: usize, to: usize) -> (r: String)
    requires
        from <= to <= cs@.len(),
    ensures
        r@ == cs@.subrange(from as int, to as int),
{
    let mut r = String::new();
    let mut i: usize = from;
    while i < to
        invariant
            from <= i <= to <= cs@.len(),
            r@ == cs@.subrange(from as int, i as int),
        decreases to - i,
    {
        push_char(&mut r, cs[i]);
        i += 1;
        assert(r@ =~= cs@.subrange(from as int, i as int));
    }
    r
}

/// Whether `p` occurs in `s` at position `i`.
pub fn matches_at(s: &[char], p: &[char], i: usize) -> (r: bool)
    ensures
        r == occurs_at(s@, p@, i as int),
{
    if i > s.len() || p.len() > s.len() - i {
        return false;
    }
    let mut j: usize = 0;
    while j < p.len()
        invariant
            i + p@.len() <= s@.len(),
            s@.len() == s.len(),
            p@.len() == p.len(),
            j <= p@.len(),
            forall|k: int| 0 <= k < j ==> s@[i + k] == p@[k],
        decreases p@.len() - j,
    {
        if s[i + j] != p[j] {
            assert(s@.subrange(i as int, i + p@.len())[j as int] != p@[j as int]);
            return false;
        }
        j += 1;
    }
    assert(s@.subrange(i as int, i + p@.len()) =~= p@);
    true
}

/// Whether `s` starts with `p`.
pub fn has_prefix(s: &str, p: &str) -> (r: bool)
    ensures
        r == is_prefix(p@, s@),
{
    let sv = char_vec(s);
    let pv = char_vec(p);
    matches_at(sv.as_slice(), pv.as_slice(), 0)
}

/// Whether `p` occurs anywhere in `s`.
pub fn has_infix_str(s: &str, p: &str) -> (r: bool)
    ensures
        r == has_infix(s@, p@),
{
    let sv = char_vec(s);
    let pv = char_vec(p);
    if pv.len() > sv.len() {
        assert forall|i: int| !occurs_at(s@, p@, i) by {}
        return false;
    }
    let last = sv.len() - pv.len();
    let mut i: usize = 0;
    loop
        invariant
            sv@ == s@,
            pv@ == p@,
            last == sv@.len() - pv@.len(),
            i <= last,
            forall|k: int| 0 <= k < i ==> !occurs_at(s@, p@, k),
        ensures
            forall|k: int| 0 <= k <= last ==> !occurs_at(s@, p@, k),
        decreases last - i,
    {
        if matches_at(sv.as_slice(), pv.as_slice(), i) {
            return true;
        }
        if i == last {
            break;
        }
        i += 1;
    }
    assert forall|k: int| !occurs_at(s@, p@, k) by {}
    false
}

/// `s` with every leading copy of `p` removed.
pub fn strip_all_prefixes(s: &str, p: &str) -> (r: String)
    ensures
        r@ == strip_all(s@, p@),
{
    let sv = char_vec(s);
    let pv = char_vec(p);
    let start = skip_prefixes(sv.as_slice(), pv.as_slice());
    string_of(sv.as_slice(), start, sv.len())
}

/// The position of the first `x` in `s`.
pub open spec fn find_first<A>(s: Seq<A>, x: A) -> Option<int>
    decreases s.len(),
{
    if s.len() == 0 {
        None
    } else if s[0] == x {
        Some(0)
    } else {
        match find_first(s.drop_first(), x) {
            Some(i) => Some(i + 1),
            None => None,
        }
    }
}

/// The position of the last `x` in `s`.
pub open spec fn find_last<A>(s: Seq<A>, x: A) -> Option<int>
    decreases s.len(),
{
    if s.len() == 0 {
        None
    } else if s.last() == x {
        Some(s.len() - 1)
    } else {
        find_last(s.drop_last(), x)
    }
}

/// The position, between `from` and `to`, of the first `c` in `cs@[from..to]`.
pub fn find_char(cs: &[char], from: usize, to: usize, c: char) -> (r: Option<usize>)
    requires
        from <= to <= cs@.len(),
    ensures
        match r {
            Some(i) => from <= i < to && find_first(cs@.subrange(from as int, to as int), c)
                == Some(i - from),
            None => find_first(cs@.subrange(from as int, to as int), c) is None,
        },
{
    let mut i: usize = from;
    while i < to
        invariant
            from <= i <= to <= cs@.len(),
            find_first(cs@.subrange(from as int, to as int), c) == match find_first(
                cs@.subrange(i as int, to as int),
                c,
            ) {
                Some(j) => Some(j + (i - from)),
                None => None,
            },
        decreases to - i,
    {
        let ghost rest = cs@.subrange(i as int, to as int);
        assert(rest[0] == cs@[i as int]);
        if cs[i] == c {
            return Some(i);
        }
        assert(rest.drop_first() =~= cs@.subrange(i + 1, to as int));
        i += 1;
    }
    None
}

/// The position of the first `x` in `bs@[from..to]`.
pub fn find_byte(bs: &[u8], from: usize, to: usize, x: u8) -> (r: Option<usize>)
    requires
        from <= to <= bs@.len(),
    ensures
        match r {
            Some(i) => from <= i < to && find_first(bs@.subrange(from as int, to as int), x)
                == Some(i - from),
            None => find_first(bs@.subrange(from as int, to as int), x) is None,
        },
{
    let mut i: usize = from;
    while i < to
        invariant
            from <= i <= to <= bs@.len(),
            find_first(bs@.subrange(from as int, to as int), x) == match find_first(
                bs@.subrange(i as int, to as int),
                x,
            ) {
                Some(j) => Some(j + (i - from)),
                None => None,
            },
        decreases to - i,
    {
        let ghost rest = bs@.subrange(i as int, to as int);
        assert(rest[0] == bs@[i as int]);
        if bs[i] == x {
            return Some(i);
        }
        assert(rest.drop_first() =~= bs@.subrange(i + 1, to as int));
        i += 1;
    }
    None
}

/// The position, between `from` and `to`, of the last `c` in `cs@[from..to]`.
pub fn find_last_char(cs: &[char], from: usize, to: usize, c: char) -> (r: Option<usize>)
    requires
        from <= to <= cs@.len(),
    ensures
        match r {
            Some(i) => from <= i < to && find_last(cs@.subrange(from as int, to as int), c)
                == Some(i - from),
            None => find_last(cs@.subrange(from as int, to as int), c) is None,
        },
{
    let mut i: usize = to;
    while i > from
        invariant
            from <= i <= to <= cs@.len(),
            find_last(cs@.subrange(from as int, to as int), c) == find_last(
                cs@.subrange(from as int, i as int),
                c,
            ),
        decreases i - from,
    {
        let ghost pre = cs@.subrange(from as int, i as int);
        assert(pre.last() == cs@[i - 1]);
        if cs[i - 1] == c {
            return Some(i - 1);
        }
        assert(pre.drop_last() =~= cs@.subrange(from as int, i - 1));
        i -= 1;
    }
    None
}

/// Where `s` starts once every leading copy of `p` is skipped.
pub fn skip_prefixes(s: &[char], p: &[char]) -> (start: usize)
    ensures
        start <= s@.len(),
        s@.subrange(start as int, s@.len() as int) == strip_all(s@, p@),
{
    let mut start: usize = 0;
    assert(s@.subrange(0, s@.len() as int) =~= s@);
    if p.len() == 0 {
        return 0;
    }
    loop
        invariant
            p@.len() > 0,
            start <= s@.len(),
            strip_all(s@, p@) == strip_all(s@.subrange(start as int, s@.len() as int), p@),
        ensures
            start <= s@.len(),
            !occurs_at(s@, p@, start as int),
            strip_all(s@, p@) == strip_all(s@.subrange(start as int, s@.len() as int), p@),
        decreases s@.len() - start,
    {
        if !matches_at(s, p, start) {
            break;
        }
        let ghost rest = s@.subrange(start as int, s@.len() as int);
        assert(rest.subrange(0, p@.len() as int) =~= s@.subrange(start as int, start + p@.len()));
        assert(rest.subrange(p@.len() as int, rest.len() as int) =~= s@.subrange(
            start + p@.len(),
            s@.len() as int,
        ));
        let n = s.len();
        assert(start + p@.len() <= n);
        start = start + p.len();
    }
    let ghost rest = s@.subrange(start as int, s@.len() as int);
    assert(!is_prefix(p@, rest)) by {
        if is_prefix(p@, rest) {
            assert(rest.subrange(0, p@.len() as int) =~= s@.subrange(
                start as int,
                start + p@.len(),
            ));
        }
    }
    start
}

/// A decimal digit.
pub open spec fn is_digit(c: char) -> bool {
    '0' <= c && c <= '9'
}

/// The value of a decimal digit.
pub open spec fn digit_value(c: char) -> nat {
    ((c as u32) - ('0' as u32)) as nat
}

/// The value of a sequence of decimal digits.
pub open spec fn digits_value(d: Seq<char>) -> nat
    decreases d.len(),
{
    if d.len() == 0 {
        0
    } else {
        digits_value(d.drop_last()) * 10 + digit_value(d.last())
    }
}

/// `s` without its leading `+`, if it has one.
pub open spec fn unsigned_part(s: Seq<char>) -> Seq<char> {
    if s.len() > 0 && s[0] == '+' {
        s.drop_first()
    } else {
        s
    }
}

/// Every character of `d` is a decimal digit.
pub open spec fn all_digits(d: Seq<char>) -> bool {
    forall|i: int| 0 <= i < d.len() ==> is_digit(#[trigger] d[i])
}

/// The unsigned 64-bit integer that `s` writes in decimal, with an optional
/// leading `+`, if it writes one that fits.
pub open spec fn parse_u64_spec(s: Seq<char>) -> Option<u64> {
    let d = unsigned_part(s);
    if d.len() > 0 && all_digits(d) && digits_value(d) <= u64::MAX {
        Some(digits_value(d) as u64)
    } else {
        None
    }
}

/// A prefix of digits is worth no more than the whole.
proof fn lemma_digits_value_grows(d: Seq<char>, k: int)
    requires
        0 <= k <= d.len(),
    ensures
        digits_value(d.subrange(0, k)) <= digits_value(d),
    decreases d.len(),
{
    if k < d.len() {
        lemma_digits_value_grows(d.drop_last(), k);
        assert(d.drop_last().subrange(0, k) =~= d.subrange(0, k));
        let v = digits_value(d.drop_last());
        assert(v <= v * 10) by (nonlinear_arith);
    } else {
        assert(d.subrange(0, k) =~= d);
    }
}

/// The integer that `cs@[from..to]` writes in decimal, as `str::parse::<u64>`
/// reads it.
pub fn parse_u64(cs: &[char], from: usize, to: usize) -> (r: Option<u64>)
    requires
        from <= to <= cs@.len(),
    ensures
        r == parse_u64_spec(cs@.subrange(from as int, to as int)),
{
    let ghost s = cs@.subrange(from as int, to as int);
    let start = if from < to && cs[from] == '+' {
        from + 1
    } else {
        from
    };
    let ghost d = cs@.subrange(start as int, to as int);
    assert(d =~= unsigned_part(s));
    if start == to {
        return None;
    }
    let mut acc: u64 = 0;
    let mut i: usize = start;
    assert(d.subrange(0, 0) =~= Seq::<char>::empty());
    while i < to
        invariant
            start <= i <= to <= cs@.len(),
            d == cs@.subrange(start as int, to as int),
            s == cs@.subrange(from as int, to as int),
            d == unsigned_part(s),
            acc as nat == digits_value(d.subrange(0, i - start)),
            forall|k: int| 0 <= k < i - start ==> is_digit(#[trigger] d[k]),
        decreases to - i,
    {
        let c = cs[i];
        assert(c == d[i - start]);
        if !('0' <= c && c <= '9') {
            assert(!is_digit(d[i - start]));
            assert(!all_digits(d));
            return None;
        }
        let v = ((c as u32) - ('0' as u32)) as u64;
        let ghost next = d.subrange(0, i - start + 1);
        assert(next.drop_last() =~= d.subrange(0, i - start));
        assert(digits_value(next) == acc * 10 + v);
        if acc > (u64::MAX - v) / 10 {
            assert(acc * 10 + v > u64::MAX) by (nonlinear_arith)
                requires
                    acc > (u64::MAX - v) / 10,
                    v <= 9,
            ;
            proof {
                lemma_digits_value_grows(d, i - start + 1);
            }
            return None;
        }
        assert(acc * 10 + v <= u64::MAX) by (nonlinear_arith)
            requires
                acc <= (u64::MAX - v) / 10,
                v <= 9,
        ;
        acc = acc * 10 + v;
        i += 1;
    }
    assert(d.subrange(0, i - start) =~= d);
    Some(acc)
}

} // verus!
