//! The recursive-descent grammar, one module per rule group, together with
//! the position-based result type they all share and the conversions
//! between `&str` entry points and the character-indexed core.

use vstd::prelude::*;
use vstd::string::StrSliceExecFns;

pub mod admin;
pub mod chars;
pub mod combinators;
pub mod delta;
pub mod deltatext;
pub mod diff;
pub mod num;
pub mod rcsdata;
pub mod string;

verus! {

/// Result of a core parsing function: the index of the first unconsumed
/// character together with the parsed value, or a structured failure.
pub type PResult<T> = Result<(usize, T), crate::error::ParseError>;

/// Decodes a string slice into its sequence of characters.
pub fn str_to_chars(s: &str) -> (v: Vec<char>)
    ensures
        v@ == s@,
{
    let n = s.unicode_len();
    let mut v: Vec<char> = Vec::new();
    let mut i: usize = 0;
    while i < n
        invariant
            i <= n,
            n == s@.len(),
            v@ == s@.subrange(0, i as int),
        decreases n - i,
    {
        let c = s.get_char(i);
        v.push(c);
        proof {
            assert(s@.subrange(0, i + 1) =~= s@.subrange(0, i as int).push(s@[i as int]));
        }
        i = i + 1;
    }
    proof {
        assert(s@.subrange(0, n as int) =~= s@);
    }
    v
}

/// Relies on `String: FromIterator<&char>`: collecting copies the
/// characters of the slice, in order, into a fresh string.
#[verifier::external_body]
pub fn chars_to_string(cs: &[char]) -> (r: String)
    ensures
        r@ == cs@,
{
    cs.iter().collect()
}

} // verus!
