//! The `string` rule: `@`-delimited literals in which a literal `@` is
//! written doubled, and the raw `intstring` variant that is read verbatim
//! up to the next `@`.

use vstd::prelude::*;
use vstd::string::StrSliceExecFns;

use crate::error::{ErrKind, ParseError};
use crate::parsers::chars::{lemma_run_end, run_end};
use crate::parsers::PResult;

verus! {

/// Prepends already-decoded characters to the result of decoding a rest.
pub open spec fn prepend_all(v: Seq<char>, o: Option<(int, Seq<char>)>) -> Option<
    (int, Seq<char>),
> {
    match o {
        Some((e, t)) => Some((e, v + t)),
        None => None,
    }
}

/// Decodes a string body from `i` up to and including the single `@` that
/// terminates it: `@@` stands for one `@`, any other character stands for
/// itself, and a body that runs to the end of the input fails.
pub open spec fn sp_str_body(s: Seq<char>, i: int) -> Option<(int, Seq<char>)>
    decreases s.len() - i,
{
    if !(0 <= i < s.len()) {
        None
    } else if s[i] != '@' {
        prepend_all(seq![s[i]], sp_str_body(s, i + 1))
    } else if i + 1 < s.len() && s[i + 1] == '@' {
        prepend_all(seq!['@'], sp_str_body(s, i + 2))
    } else {
        Some((i + 1, Seq::empty()))
    }
}

/// The `string` rule at a position: `@`, a body with doubled `@`
/// escaping, `@`.
pub open spec fn sp_string(s: Seq<char>, i: int) -> Option<(int, Seq<char>)> {
    if 0 <= i < s.len() && s[i] == '@' {
        sp_str_body(s, i + 1)
    } else {
        None
    }
}

/// The predicate of the raw `intstring` body as a value.
pub open spec fn not_at_pred() -> spec_fn(char) -> bool {
    |c: char| c != '@'
}

/// The `intstring` rule at a position: `@`, a verbatim body without any
/// escaping, `@`.
pub open spec fn sp_intstring(s: Seq<char>, i: int) -> Option<(int, Seq<char>)> {
    if 0 <= i < s.len() && s[i] == '@' {
        let e = run_end(s, i + 1, not_at_pred());
        if e < s.len() {
            Some((e + 1, s.subrange(i + 1, e)))
        } else {
            None
        }
    } else {
        None
    }
}

/// Parses an escaped string at a position.  When the opening `@` is
/// present, the only possible failure is a body that runs to the end of
/// the input, reported at the end of the input.
pub fn parse_string_at(s: &[char], pos: usize) -> (r: PResult<String>)
    requires
        pos <= s.len(),
    ensures
        match r {
            Ok((q, v)) => sp_string(s@, pos as int) == Some((q as int, v@)) && pos < q <= s.len(),
            Err(e) => {
                &&& sp_string(s@, pos as int) is None
                &&& e.wf()
                &&& e.trace@.len() == 2
                &&& e.trace@[0].kind == ErrKind::Tag
                &&& e.trace@[0].pos == if pos < s@.len() && s@[pos as int] == '@' {
                    s@.len() as int
                } else {
                    pos as int
                }
                &&& e.trace@[1].pos == pos
                &&& e.trace@[1].kind matches ErrKind::Context(c) && c@ == "string"@
            },
        },
{
    if pos == s.len() || s[pos] != '@' {
        return Err(ParseError::new(pos, ErrKind::Tag).with_context(pos, "string"));
    }
    let mut out: Vec<char> = Vec::new();
    let mut j = pos + 1;
    loop
        invariant
            pos < s.len(),
            s@[pos as int] == '@',
            pos + 1 <= j <= s.len(),
            prepend_all(out@, sp_str_body(s@, j as int)) == sp_str_body(s@, pos + 1),
        decreases s@.len() - j,
    {
        let ghost out0 = out@;
        if j == s.len() {
            return Err(ParseError::new(j, ErrKind::Tag).with_context(pos, "string"));
        }
        let c = s[j];
        if c != '@' {
            out.push(c);
            proof {
                if let Some((e, t)) = sp_str_body(s@, j + 1) {
                    assert(out0 + (seq![s@[j as int]] + t) =~= out0.push(s@[j as int]) + t);
                }
            }
            j = j + 1;
        } else if j + 1 < s.len() && s[j + 1] == '@' {
            out.push('@');
            proof {
                if let Some((e, t)) = sp_str_body(s@, j + 2) {
                    assert(out0 + (seq!['@'] + t) =~= out0.push('@') + t);
                }
            }
            j = j + 2;
        } else {
            proof {
                assert(out0 + Seq::<char>::empty() =~= out0);
            }
            let v = crate::parsers::chars_to_string(out.as_slice());
            return Ok((j + 1, v));
        }
    }
}

/// Parses a raw `intstring` at a position.
pub fn parse_intstring_at(s: &[char], pos: usize) -> (r: PResult<String>)
    requires
        pos <= s.len(),
    ensures
        match r {
            Ok((q, v)) => sp_intstring(s@, pos as int) == Some((q as int, v@)) && pos < q
                <= s.len(),
            Err(e) => {
                &&& sp_intstring(s@, pos as int) is None
                &&& e.wf()
                &&& e.trace@.len() == 2
                &&& e.trace@[0].kind == ErrKind::Tag
                &&& e.trace@[0].pos == if pos < s@.len() && s@[pos as int] == '@' {
                    s@.len() as int
                } else {
                    pos as int
                }
                &&& e.trace@[1].pos == pos
                &&& e.trace@[1].kind matches ErrKind::Context(c) && c@ == "intstring"@
            },
        },
{
    if pos == s.len() || s[pos] != '@' {
        return Err(ParseError::new(pos, ErrKind::Tag).with_context(pos, "intstring"));
    }
    let mut e = pos + 1;
    loop
        invariant
            pos < s.len(),
            s@[pos as int] == '@',
            pos + 1 <= e <= s.len(),
            run_end(s@, pos + 1, not_at_pred()) == run_end(s@, e as int, not_at_pred()),
        decreases s@.len() - e,
    {
        if e == s.len() {
            return Err(ParseError::new(e, ErrKind::Tag).with_context(pos, "intstring"));
        }
        let c = s[e];
        if c != '@' {
            e = e + 1;
        } else {
            let v = crate::parsers::chars_to_string(vstd::slice::slice_subrange(s, pos + 1, e));
            return Ok((e + 1, v));
        }
    }
}

/// The `string` rule as a clause payload.
pub struct StringParser;

impl crate::parsers::combinators::Payload for StringParser {
    type Out = String;

    open spec fn sp(s: Seq<char>, i: int) -> Option<(int, Seq<char>)> {
        sp_string(s, i)
    }

    fn parse(&self, s: &[char], pos: usize) -> (r: PResult<String>) {
        parse_string_at(s, pos)
    }
}

/// The `intstring` rule as a clause payload.
pub struct IntStringParser;

impl crate::parsers::combinators::Payload for IntStringParser {
    type Out = String;

    open spec fn sp(s: Seq<char>, i: int) -> Option<(int, Seq<char>)> {
        sp_intstring(s, i)
    }

    fn parse(&self, s: &[char], pos: usize) -> (r: PResult<String>) {
        parse_intstring_at(s, pos)
    }
}

/// Parses an escaped string at the start of the input; returns the
/// remainder and the decoded contents.
pub fn parse_string<'a>(input: &'a str) -> (r: Result<(&'a str, String), ParseError>)
    ensures
        match r {
            Ok((rem, v)) => {
                &&& sp_string(input@, 0) matches Some((e, t))
                &&& v@ == t
                &&& rem@ == input@.subrange(e, input@.len() as int)
            },
            Err(e) => {
                &&& sp_string(input@, 0) is None
                &&& e.wf()
                &&& e.trace@.len() == 2
                &&& e.trace@[0].kind == ErrKind::Tag
                &&& e.trace@[0].pos == if input@.len() > 0 && input@[0] == '@' {
                    input@.len() as int
                } else {
                    0int
                }
                &&& e.trace@[1].pos == 0
                &&& e.trace@[1].kind matches ErrKind::Context(c) && c@ == "string"@
            },
        },
{
    let cs = crate::parsers::str_to_chars(input);
    let n = cs.len();
    match parse_string_at(cs.as_slice(), 0) {
        Ok((e, v)) => {
            let rem = input.substring_char(e, n);
            Ok((rem, v))
        },
        Err(e) => Err(e),
    }
}

/// Parses a raw `intstring` at the start of the input; returns the
/// remainder and the verbatim contents.
pub fn parse_intstring<'a>(input: &'a str) -> (r: Result<(&'a str, String), ParseError>)
    ensures
        match r {
            Ok((rem, v)) => {
                &&& sp_intstring(input@, 0) matches Some((e, t))
                &&& v@ == t
                &&& rem@ == input@.subrange(e, input@.len() as int)
            },
            Err(e) => {
                &&& sp_intstring(input@, 0) is None
                &&& e.wf()
                &&& e.trace@.len() == 2
                &&& e.trace@[0].kind == ErrKind::Tag
                &&& e.trace@[0].pos == if input@.len() > 0 && input@[0] == '@' {
                    input@.len() as int
                } else {
                    0int
                }
                &&& e.trace@[1].pos == 0
                &&& e.trace@[1].kind matches ErrKind::Context(c) && c@ == "intstring"@
            },
        },
{
    let cs = crate::parsers::str_to_chars(input);
    let n = cs.len();
    match parse_intstring_at(cs.as_slice(), 0) {
        Ok((e, v)) => {
            let rem = input.substring_char(e, n);
            Ok((rem, v))
        },
        Err(e) => Err(e),
    }
}

} // verus!
