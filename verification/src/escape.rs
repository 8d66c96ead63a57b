//! Escaping of a user-influenced string for embedding as a value inside a
//! single encoder filter-graph parameter.
//!
//! The encoder reads a filter-graph expression twice: once at the
//! parameter-value level and once at the outer graph level, so the string
//! passes through two escaping levels in a fixed order. Applying the levels
//! in any other order produces a different, broken result.
use vstd::prelude::*;
use crate::strutil::{chars_to_string, string_to_chars};

verus! {

/// First level: characters significant inside a parameter value.
pub open spec fn level1_char(c: char) -> Seq<char> {
    if c == '\'' {
        seq!['\\', '\'']
    } else if c == ':' {
        seq!['\\', ':']
    } else {
        seq![c]
    }
}

/// First escaping level applied to a whole string.
pub open spec fn level1(s: Seq<char>) -> Seq<char>
    decreases s.len(),
{
    if s.len() == 0 {
        Seq::empty()
    } else {
        level1(s.drop_last()) + level1_char(s.last())
    }
}

/// Second level: characters significant at the outer filter-graph level.
pub open spec fn level2_char(c: char) -> Seq<char> {
    if c == '\\' {
        seq!['\\', '\\']
    } else if c == '\'' {
        seq!['\\', '\'']
    } else if c == '[' {
        seq!['\\', '[']
    } else if c == ']' {
        seq!['\\', ']']
    } else if c == ',' {
        seq!['\\', ',']
    } else if c == ';' {
        seq!['\\', ';']
    } else {
        seq![c]
    }
}

/// Second escaping level applied to a whole string.
pub open spec fn level2(s: Seq<char>) -> Seq<char>
    decreases s.len(),
{
    if s.len() == 0 {
        Seq::empty()
    } else {
        level2(s.drop_last()) + level2_char(s.last())
    }
}

/// The full escape: the second level applied to the result of the first.
pub open spec fn escape_spec(s: Seq<char>) -> Seq<char> {
    level2(level1(s))
}

fn apply_level1(v: &Vec<char>) -> (r: Vec<char>)
    ensures
        r@ == level1(v@),
{
    let mut r: Vec<char> = Vec::new();
    let mut i: usize = 0;
    while i < v.len()
        invariant
            i <= v@.len(),
            r@ == level1(v@.take(i as int)),
        decreases v@.len() - i,
    {
        let c = v[i];
        if c == '\'' {
            r.push('\\');
            r.push('\'');
        } else if c == ':' {
            r.push('\\');
            r.push(':');
        } else {
            r.push(c);
        }
        proof {
            assert(v@.take(i + 1 as int).drop_last() =~= v@.take(i as int));
            assert(v@.take(i + 1 as int).last() == v@[i as int]);
            assert(r@ =~= level1(v@.take(i as int)) + level1_char(v@[i as int]));
        }
        i = i + 1;
    }
    proof {
        assert(v@.take(v@.len() as int) =~= v@);
    }
    r
}

fn apply_level2(v: &Vec<char>) -> (r: Vec<char>)
    ensures
        r@ == level2(v@),
{
    let mut r: Vec<char> = Vec::new();
    let mut i: usize = 0;
    while i < v.len()
        invariant
            i <= v@.len(),
            r@ == level2(v@.take(i as int)),
        decreases v@.len() - i,
    {
        let c = v[i];
        if c == '\\' {
            r.push('\\');
            r.push('\\');
        } else if c == '\'' {
            r.push('\\');
            r.push('\'');
        } else if c == '[' {
            r.push('\\');
            r.push('[');
        } else if c == ']' {
            r.push('\\');
            r.push(']');
        } else if c == ',' {
            r.push('\\');
            r.push(',');
        } else if c == ';' {
            r.push('\\');
            r.push(';');
        } else {
            r.push(c);
        }
        proof {
            assert(v@.take(i + 1 as int).drop_last() =~= v@.take(i as int));
            assert(v@.take(i + 1 as int).last() == v@[i as int]);
            assert(r@ =~= level2(v@.take(i as int)) + level2_char(v@[i as int]));
        }
        i = i + 1;
    }
    proof {
        assert(v@.take(v@.len() as int) =~= v@);
    }
    r
}

/// Escape a string so that it can be spliced, as a single parameter value,
/// into an encoder filter-graph expression.
pub fn ffmpeg_filtergraph_escaping(raw_string: &str) -> (r: String)
    ensures
        r@ == escape_spec(raw_string@),
{
    let chars = string_to_chars(raw_string);
    let once = apply_level1(&chars);
    let twice = apply_level2(&once);
    chars_to_string(&twice)
}

} // verus!
