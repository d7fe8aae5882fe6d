//! A snapshot of the process environment, and the names of the environment
//! signals derived from a package name.

use vstd::prelude::*;
use crate::text::{char_vec, push_char};

verus! {

/// The ASCII upper-case form of `c`; other characters are kept.
pub open spec fn ascii_upper(c: char) -> char {
    if 'a' <= c && c <= 'z' {
        (((c as u32) - 32) as u8) as char
    } else {
        c
    }
}

/// The character that stands for `c` in an environment variable name.
pub open spec fn env_char(c: char) -> char {
    if c == '-' {
        '_'
    } else {
        ascii_upper(c)
    }
}

/// A package name turned into the stem of an environment variable name:
/// ASCII letters upper-cased and `-` replaced by `_`.
pub open spec fn envify_spec(name: Seq<char>) -> Seq<char> {
    name.map_values(|c: char| env_char(c))
}

/// A package name turned into the stem of an environment variable name.
pub fn envify(name: &str) -> (r: String)
    ensures
        r@ == envify_spec(name@),
{
    let cs = char_vec(name);
    let mut r = String::new();
    let mut i: usize = 0;
    while i < cs.len()
        invariant
            cs@ == name@,
            i <= cs@.len(),
            r@ == envify_spec(name@.subrange(0, i as int)),
        decreases cs@.len() - i,
    {
        let c = cs[i];
        let e = if c == '-' {
            '_'
        } else if 'a' <= c && c <= 'z' {
            (((c as u32) - 32) as u8) as char
        } else {
            c
        };
        push_char(&mut r, e);
        i += 1;
        assert(envify_spec(name@.subrange(0, i as int)) =~= envify_spec(
            name@.subrange(0, i - 1),
        ).push(e));
    }
    assert(name@.subrange(0, i as int) =~= name@);
    r
}

/// Whether a variable named `name` is set in `env`.
pub open spec fn env_has(env: Seq<(Seq<char>, Seq<char>)>, name: Seq<char>) -> bool {
    exists|i: int| 0 <= i < env.len() && env[i].0 == name
}

/// The value of the variable `name` in `env`: the one set last.
pub open spec fn env_value(env: Seq<(Seq<char>, Seq<char>)>, name: Seq<char>) -> Option<
    Seq<char>,
>
    decreases env.len(),
{
    if env.len() == 0 {
        None
    } else if env.last().0 == name {
        Some(env.last().1)
    } else {
        env_value(env.drop_last(), name)
    }
}

/// The environment variables of a process, as (name, value) pairs.
pub struct EnvSnapshot {
    vars: Vec<(String, String)>,
}

impl View for EnvSnapshot {
    type V = Seq<(Seq<char>, Seq<char>)>;

    closed spec fn view(&self) -> Seq<(Seq<char>, Seq<char>)> {
        self.vars@.map_values(|p: (String, String)| (p.0@, p.1@))
    }
}

impl EnvSnapshot {
    /// An environment with no variables.
    pub fn new() -> (r: EnvSnapshot)
        ensures
            r@ == Seq::<(Seq<char>, Seq<char>)>::empty(),
    {
        let r = EnvSnapshot { vars: Vec::new() };
        assert(r@ =~= Seq::<(Seq<char>, Seq<char>)>::empty());
        r
    }

    /// Sets the variable `name` to `value`.
    pub fn set(&mut self, name: &str, value: &str)
        ensures
            final(self)@ == old(self)@.push((name@, value@)),
    {
        self.vars.push((String::from_str(name), String::from_str(value)));
        assert(self@ =~= old(self)@.push((name@, value@)));
    }

    /// Whether the variable `name` is set.
    pub fn is_set(&self, name: &str) -> (r: bool)
        ensures
            r == env_has(self@, name@),
    {
        let key = String::from_str(name);
        let mut i: usize = 0;
        while i < self.vars.len()
            invariant
                key@ == name@,
                i <= self.vars@.len(),
                forall|k: int| 0 <= k < i ==> self@[k].0 != name@,
            decreases self.vars@.len() - i,
        {
            if self.vars[i].0 == key {
                assert(self@[i as int].0 == name@);
                return true;
            }
            i += 1;
        }
        false
    }

    /// The value of the variable `name`, if it is set.
    pub fn var(&self, name: &str) -> (r: Option<String>)
        ensures
            match r {
                Some(v) => env_value(self@, name@) == Some(v@),
                None => env_value(self@, name@) is None,
            },
    {
        let key = String::from_str(name);
        let mut i: usize = self.vars.len();
        assert(self@.subrange(0, i as int) =~= self@);
        while i > 0
            invariant
                key@ == name@,
                i <= self.vars@.len(),
                env_value(self@, name@) == env_value(self@.subrange(0, i as int), name@),
            decreases i,
        {
            let ghost pre = self@.subrange(0, i as int);
            assert(pre.drop_last() =~= self@.subrange(0, i - 1));
            if self.vars[i - 1].0 == key {
                return Some(self.vars[i - 1].1.clone());
            }
            i -= 1;
        }
        None
    }
}

} // verus!
