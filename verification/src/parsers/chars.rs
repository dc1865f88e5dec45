//! Character classes of the grammar, whitespace skipping, and the two
//! identifier-like lexemes `sym` and `id`.

use vstd::prelude::*;
use vstd::string::StrSliceExecFns;

use crate::error::{ErrKind, ParseError};
use crate::parsers::PResult;

verus! {

/// The special characters of the grammar: `$ , . : ; @`.
pub open spec fn is_special_sp(c: char) -> bool {
    c == '$' || c == ',' || c == '.' || c == ':' || c == ';' || c == '@'
}

/// Visible graphic characters: the two printable bands, octal 041 to 176
/// and 240 to 377.
pub open spec fn is_visible_sp(c: char) -> bool {
    (0x21 <= c as u32 && c as u32 <= 0x7e) || (0xa0 <= c as u32 && c as u32 <= 0xff)
}

/// An identifier character: visible and not special.
pub open spec fn is_idchar_sp(c: char) -> bool {
    is_visible_sp(c) && !is_special_sp(c)
}

/// A character of the `id` lexeme: an identifier character or a period.
pub open spec fn is_idp_sp(c: char) -> bool {
    is_idchar_sp(c) || c == '.'
}

/// Token-separating whitespace: space, tab, carriage return, newline.
pub open spec fn is_ws_sp(c: char) -> bool {
    c == ' ' || c == '\t' || c == '\r' || c == '\n'
}

/// Horizontal space only: space or tab.
pub open spec fn is_space_sp(c: char) -> bool {
    c == ' ' || c == '\t'
}

/// A decimal digit.
pub open spec fn is_digit_sp(c: char) -> bool {
    0x30 <= c as u32 && c as u32 <= 0x39
}

/// Checks whether a character is one of the grammar's special characters.
pub fn is_special_chars(c: char) -> (r: bool)
    ensures
        r == is_special_sp(c),
{
    c == '$' || c == ',' || c == '.' || c == ':' || c == ';' || c == '@'
}

/// Checks whether a character is a visible graphic character.
pub fn is_visible_char(c: char) -> (r: bool)
    ensures
        r == is_visible_sp(c),
{
    let u = c as u32;
    (0x21 <= u && u <= 0x7e) || (0xa0 <= u && u <= 0xff)
}

/// Checks whether a character may appear in a `sym` lexeme.
pub fn is_idchar(c: char) -> (r: bool)
    ensures
        r == is_idchar_sp(c),
{
    is_visible_char(c) && !is_special_chars(c)
}

/// The end of the run of characters satisfying `p` that starts at `i`.
pub open spec fn run_end(s: Seq<char>, i: int, p: spec_fn(char) -> bool) -> int
    decreases s.len() - i,
{
    if 0 <= i < s.len() && p(s[i]) {
        run_end(s, i + 1, p)
    } else {
        i
    }
}

/// The whitespace predicate as a value, so that every use names one term.
pub open spec fn ws_pred() -> spec_fn(char) -> bool {
    |c: char| is_ws_sp(c)
}

/// The digit predicate as a value.
pub open spec fn digit_pred() -> spec_fn(char) -> bool {
    |c: char| is_digit_sp(c)
}

/// The horizontal-space predicate as a value.
pub open spec fn space_pred() -> spec_fn(char) -> bool {
    |c: char| is_space_sp(c)
}

/// The `sym` character predicate as a value.
pub open spec fn idchar_pred() -> spec_fn(char) -> bool {
    |c: char| is_idchar_sp(c)
}

/// The `id` character predicate as a value.
pub open spec fn idp_pred() -> spec_fn(char) -> bool {
    |c: char| is_idp_sp(c)
}

/// Position and contents of a character run.
pub proof fn lemma_run_end(s: Seq<char>, i: int, p: spec_fn(char) -> bool)
    requires
        0 <= i <= s.len(),
    ensures
        i <= run_end(s, i, p) <= s.len(),
        forall|j: int| i <= j < run_end(s, i, p) ==> p(s[j]),
        run_end(s, i, p) < s.len() ==> !p(s[run_end(s, i, p)]),
    decreases s.len() - i,
{
    if i < s.len() && p(s[i]) {
        lemma_run_end(s, i + 1, p);
    }
}

/// Starting anywhere inside a run of characters satisfying `p` reaches
/// the same end.
pub proof fn lemma_run_end_within(s: Seq<char>, i: int, j: int, p: spec_fn(char) -> bool)
    requires
        0 <= i <= j,
        j <= run_end(s, i, p),
    ensures
        run_end(s, j, p) == run_end(s, i, p),
    decreases j - i,
{
    if i < j {
        assert(run_end(s, i, p) == run_end(s, i + 1, p));
        lemma_run_end_within(s, i + 1, j, p);
    }
}

/// Skips token-separating whitespace.
pub fn skip_ws(s: &[char], pos: usize) -> (r: usize)
    requires
        pos <= s.len(),
    ensures
        r == run_end(s@, pos as int, ws_pred()),
        pos <= r <= s.len(),
{
    let mut i = pos;
    loop
        invariant
            pos <= i <= s.len(),
            run_end(s@, pos as int, ws_pred()) == run_end(s@, i as int, ws_pred()),
        decreases s.len() - i,
    {
        if i < s.len() {
            let c = s[i];
            if c == ' ' || c == '\t' || c == '\r' || c == '\n' {
                i = i + 1;
                continue;
            }
        }
        return i;
    }
}

/// Skips horizontal space.
pub fn skip_spaces(s: &[char], pos: usize) -> (r: usize)
    requires
        pos <= s.len(),
    ensures
        r == run_end(s@, pos as int, space_pred()),
        pos <= r <= s.len(),
{
    let mut i = pos;
    loop
        invariant
            pos <= i <= s.len(),
            run_end(s@, pos as int, space_pred()) == run_end(s@, i as int, space_pred()),
        decreases s.len() - i,
    {
        if i < s.len() {
            let c = s[i];
            if c == ' ' || c == '\t' {
                i = i + 1;
                continue;
            }
        }
        return i;
    }
}

/// Skips decimal digits.
pub fn scan_digits(s: &[char], pos: usize) -> (r: usize)
    requires
        pos <= s.len(),
    ensures
        r == run_end(s@, pos as int, digit_pred()),
        pos <= r <= s.len(),
{
    let mut i = pos;
    loop
        invariant
            pos <= i <= s.len(),
            run_end(s@, pos as int, digit_pred()) == run_end(s@, i as int, digit_pred()),
        decreases s.len() - i,
    {
        if i < s.len() {
            let c = s[i] as u32;
            if 0x30 <= c && c <= 0x39 {
                i = i + 1;
                continue;
            }
        }
        return i;
    }
}

/// Skips `sym` characters.
pub fn scan_idchars(s: &[char], pos: usize) -> (r: usize)
    requires
        pos <= s.len(),
    ensures
        r == run_end(s@, pos as int, idchar_pred()),
        pos <= r <= s.len(),
{
    let mut i = pos;
    loop
        invariant
            pos <= i <= s.len(),
            run_end(s@, pos as int, idchar_pred()) == run_end(s@, i as int, idchar_pred()),
        decreases s.len() - i,
    {
        if i < s.len() {
            let c = s[i];
            if is_idchar(c) {
                i = i + 1;
                continue;
            }
        }
        return i;
    }
}

/// Skips `id` characters.
pub fn scan_idpchars(s: &[char], pos: usize) -> (r: usize)
    requires
        pos <= s.len(),
    ensures
        r == run_end(s@, pos as int, idp_pred()),
        pos <= r <= s.len(),
{
    let mut i = pos;
    loop
        invariant
            pos <= i <= s.len(),
            run_end(s@, pos as int, idp_pred()) == run_end(s@, i as int, idp_pred()),
        decreases s.len() - i,
    {
        if i < s.len() {
            let c = s[i];
            if is_idchar(c) || c == '.' {
                i = i + 1;
                continue;
            }
        }
        return i;
    }
}

/// The `sym` rule: one or more identifier characters.
pub open spec fn sp_sym(s: Seq<char>, i: int) -> Option<(int, Seq<char>)> {
    let e = run_end(s, i, idchar_pred());
    if e > i {
        Some((e, s.subrange(i, e)))
    } else {
        None
    }
}

/// The `id` rule: one or more identifier characters or periods.
pub open spec fn sp_id(s: Seq<char>, i: int) -> Option<(int, Seq<char>)> {
    let e = run_end(s, i, idp_pred());
    if e > i {
        Some((e, s.subrange(i, e)))
    } else {
        None
    }
}

/// Parses a `sym` lexeme at a position.
pub fn parse_sym_at(s: &[char], pos: usize) -> (r: PResult<String>)
    requires
        pos <= s.len(),
    ensures
        match r {
            Ok((q, v)) => sp_sym(s@, pos as int) == Some((q as int, v@)) && pos <= q <= s.len(),
            Err(e) => {
                &&& sp_sym(s@, pos as int) is None
                &&& e.wf()
                &&& e.trace@.len() == 2
                &&& e.trace@[0].pos == pos
                &&& e.trace@[0].kind == ErrKind::TakeWhile1
                &&& e.trace@[1].pos == pos
                &&& e.trace@[1].kind matches ErrKind::Context(c) && c@ == "sym"@
            },
        },
{
    let e = scan_idchars(s, pos);
    if e > pos {
        let v = crate::parsers::chars_to_string(vstd::slice::slice_subrange(s, pos, e));
        Ok((e, v))
    } else {
        Err(ParseError::new(pos, ErrKind::TakeWhile1).with_context(pos, "sym"))
    }
}

/// Parses an `id` lexeme at a position.
pub fn parse_id_at(s: &[char], pos: usize) -> (r: PResult<String>)
    requires
        pos <= s.len(),
    ensures
        match r {
            Ok((q, v)) => sp_id(s@, pos as int) == Some((q as int, v@)) && pos <= q <= s.len(),
            Err(e) => {
                &&& sp_id(s@, pos as int) is None
                &&& e.wf()
                &&& e.trace@.len() == 2
                &&& e.trace@[0].pos == pos
                &&& e.trace@[0].kind == ErrKind::TakeWhile1
                &&& e.trace@[1].pos == pos
                &&& e.trace@[1].kind matches ErrKind::Context(c) && c@ == "id"@
            },
        },
{
    let e = scan_idpchars(s, pos);
    if e > pos {
        let v = crate::parsers::chars_to_string(vstd::slice::slice_subrange(s, pos, e));
        Ok((e, v))
    } else {
        Err(ParseError::new(pos, ErrKind::TakeWhile1).with_context(pos, "id"))
    }
}

/// The `sym` rule as a clause payload.
pub struct SymParser;

impl crate::parsers::combinators::Payload for SymParser {
    type Out = String;

    open spec fn sp(s: Seq<char>, i: int) -> Option<(int, Seq<char>)> {
        sp_sym(s, i)
    }

    fn parse(&self, s: &[char], pos: usize) -> (r: PResult<String>) {
        parse_sym_at(s, pos)
    }
}

/// The `id` rule as a clause payload.
pub struct IdParser;

impl crate::parsers::combinators::Payload for IdParser {
    type Out = String;

    open spec fn sp(s: Seq<char>, i: int) -> Option<(int, Seq<char>)> {
        sp_id(s, i)
    }

    fn parse(&self, s: &[char], pos: usize) -> (r: PResult<String>) {
        parse_id_at(s, pos)
    }
}

/// Parses a `sym` lexeme at the start of the input; returns the remainder
/// and the matched slice.
pub fn parse_sym<'a>(input: &'a str) -> (r: Result<(&'a str, &'a str), ParseError>)
    ensures
        match r {
            Ok((rem, m)) => {
                &&& sp_sym(input@, 0) matches Some((e, v))
                &&& m@ == v
                &&& rem@ == input@.subrange((m@.len()) as int, input@.len() as int)
            },
            Err(e) => {
                &&& sp_sym(input@, 0) is None
                &&& e.wf()
                &&& e.trace@.len() == 2
                &&& e.trace@[0].pos == 0
                &&& e.trace@[0].kind == ErrKind::TakeWhile1
                &&& e.trace@[1].pos == 0
                &&& e.trace@[1].kind matches ErrKind::Context(c) && c@ == "sym"@
            },
        },
{
    let cs = crate::parsers::str_to_chars(input);
    let n = cs.len();
    match parse_sym_at(cs.as_slice(), 0) {
        Ok((e, _)) => {
            let m = input.substring_char(0, e);
            let rem = input.substring_char(e, n);
            Ok((rem, m))
        },
        Err(e) => Err(e),
    }
}

/// Parses an `id` lexeme at the start of the input; returns the remainder
/// and the matched slice.
pub fn parse_id<'a>(input: &'a str) -> (r: Result<(&'a str, &'a str), ParseError>)
    ensures
        match r {
            Ok((rem, m)) => {
                &&& sp_id(input@, 0) matches Some((e, v))
                &&& m@ == v
                &&& rem@ == input@.subrange((m@.len()) as int, input@.len() as int)
            },
            Err(e) => {
                &&& sp_id(input@, 0) is None
                &&& e.wf()
                &&& e.trace@.len() == 2
                &&& e.trace@[0].pos == 0
                &&& e.trace@[0].kind == ErrKind::TakeWhile1
                &&& e.trace@[1].pos == 0
                &&& e.trace@[1].kind matches ErrKind::Context(c) && c@ == "id"@
            },
        },
{
    let cs = crate::parsers::str_to_chars(input);
    let n = cs.len();
    match parse_id_at(cs.as_slice(), 0) {
        Ok((e, _)) => {
            let m = input.substring_char(0, e);
            let rem = input.substring_char(e, n);
            Ok((rem, m))
        },
        Err(e) => Err(e),
    }
}

} // verus!
