//! Prompt sanitizer: a pure pass that neutralizes structural delimiter
//! sequences before any externally sourced text is interpolated into a model
//! prompt.

use vstd::prelude::*;
use crate::text::{chars_to_string, str_to_chars};

verus! {

/// Bracket characters are replaced by neutral parentheses; every other
/// character stands unchanged.
pub open spec fn neutral_char(c: char) -> char {
    if c == '{' {
        '('
    } else if c == '}' {
        ')'
    } else if c == '[' {
        '('
    } else if c == ']' {
        ')'
    } else {
        c
    }
}

/// The sanitized form of `s`: a left-to-right scan that rewrites each `---`
/// to ` - `, each `###` to ` # `, and every other character through
/// `neutral_char`.
pub open spec fn sanitize_spec(s: Seq<char>) -> Seq<char>
    decreases s.len(),
{
    if s.len() == 0 {
        Seq::empty()
    } else if s.len() >= 3 && s[0] == '-' && s[1] == '-' && s[2] == '-' {
        seq![' ', '-', ' '] + sanitize_spec(s.skip(3))
    } else if s.len() >= 3 && s[0] == '#' && s[1] == '#' && s[2] == '#' {
        seq![' ', '#', ' '] + sanitize_spec(s.skip(3))
    } else {
        seq![neutral_char(s[0])] + sanitize_spec(s.skip(1))
    }
}

fn neutralize(c: char) -> (r: char)
    ensures
        r == neutral_char(c),
{
    if c == '{' {
        '('
    } else if c == '}' {
        ')'
    } else if c == '[' {
        '('
    } else if c == ']' {
        ')'
    } else {
        c
    }
}

/// The sanitized characters of `v`.
pub fn sanitize_chars(v: &Vec<char>) -> (r: Vec<char>)
    ensures
        r@ == sanitize_spec(v@),
{
    let n = v.len();
    let mut out: Vec<char> = Vec::new();
    let mut i: usize = 0;
    proof {
        assert(v@.skip(0) =~= v@);
    }
    while i < n
        invariant
            n == v@.len(),
            i <= n,
            sanitize_spec(v@) == out@ + sanitize_spec(v@.skip(i as int)),
        decreases n - i,
    {
        let ghost rest = v@.skip(i as int);
        if n - i > 2 && v[i] == '-' && v[i + 1] == '-' && v[i + 2] == '-' {
            out.push(' ');
            out.push('-');
            out.push(' ');
            i += 3;
            proof {
                assert(rest.skip(3) =~= v@.skip(i as int));
                assert(sanitize_spec(rest) =~= seq![' ', '-', ' '] + sanitize_spec(
                    v@.skip(i as int),
                ));
            }
        } else if n - i > 2 && v[i] == '#' && v[i + 1] == '#' && v[i + 2] == '#' {
            out.push(' ');
            out.push('#');
            out.push(' ');
            i += 3;
            proof {
                assert(rest.skip(3) =~= v@.skip(i as int));
                assert(sanitize_spec(rest) =~= seq![' ', '#', ' '] + sanitize_spec(
                    v@.skip(i as int),
                ));
            }
        } else {
            out.push(neutralize(v[i]));
            i += 1;
            proof {
                assert(rest.skip(1) =~= v@.skip(i as int));
                assert(sanitize_spec(rest) =~= seq![neutral_char(rest[0])] + sanitize_spec(
                    v@.skip(i as int),
                ));
            }
        }
        proof {
            assert(sanitize_spec(v@) =~= out@ + sanitize_spec(v@.skip(i as int)));
        }
    }
    proof {
        assert(v@.skip(n as int) =~= Seq::<char>::empty());
        assert(out@ =~= sanitize_spec(v@));
    }
    out
}

/// Neutralizes prompt-structure tokens in untrusted text before it is embedded
/// in a model prompt.
pub fn sanitize_for_prompt(text: &str) -> (r: String)
    ensures
        r@ == sanitize_spec(text@),
{
    let v = str_to_chars(text);
    let s = sanitize_chars(&v);
    chars_to_string(&s)
}

} // verus!
