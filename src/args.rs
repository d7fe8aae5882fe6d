//! Reading options from a command line as cargo hands it over.

use vstd::prelude::*;
use crate::text::{has_prefix, is_prefix, strip_all, strip_all_prefixes, strs};

verus! {

/// The position of the first argument that starts with `flag`.
pub open spec fn first_flag(args: Seq<Seq<char>>, flag: Seq<char>) -> Option<int>
    decreases args.len(),
{
    if args.len() == 0 {
        None
    } else if is_prefix(flag, args[0]) {
        Some(0)
    } else {
        match first_flag(args.drop_first(), flag) {
            Some(i) => Some(i + 1),
            None => None,
        }
    }
}

/// The value of the option `flag` on a command line: the first argument that
/// starts with `flag` is either `flag` itself, followed by the value, or
/// `flag=value`.
pub open spec fn flag_value_spec(args: Seq<Seq<char>>, flag: Seq<char>) -> Option<Seq<char>> {
    match first_flag(args, flag) {
        None => None,
        Some(i) => if args[i] == flag {
            if i + 1 < args.len() {
                Some(args[i + 1])
            } else {
                None
            }
        } else {
            Some(strip_all(args[i], flag + "="@))
        },
    }
}

/// The value of the option `flag` on the command line `args`, if it is
/// given with one.
pub fn flag_value(args: &Vec<String>, flag: &str) -> (r: Option<String>)
    ensures
        match flag_value_spec(strs(args@), flag@) {
            Some(v) => r is Some && r->0@ == v,
            None => r is None,
        },
{
    let ghost a = strs(args@);
    let n = args.len();
    let mut i: usize = 0;
    assert(a.subrange(0, n as int) =~= a);
    while i < n
        invariant
            n == args@.len(),
            a == strs(args@),
            i <= n,
            first_flag(a, flag@) == match first_flag(a.subrange(i as int, n as int), flag@) {
                Some(j) => Some(j + i),
                None => None,
            },
        decreases n - i,
    {
        let ghost rest = a.subrange(i as int, n as int);
        assert(rest[0] == args@[i as int]@);
        if has_prefix(args[i].as_str(), flag) {
            let whole = String::from_str(flag);
            if args[i] == whole {
                if i + 1 < n {
                    return Some(args[i + 1].clone());
                }
                return None;
            }
            let with_eq = String::from_str(flag).concat("=");
            return Some(strip_all_prefixes(args[i].as_str(), with_eq.as_str()));
        }
        assert(rest.drop_first() =~= a.subrange(i + 1, n as int));
        i += 1;
    }
    None
}

} // verus!
