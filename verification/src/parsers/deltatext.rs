//! One per-revision `deltatext` block: a bare revision number, the `log`
//! string, and the `text` body — a plain string for the head revision,
//! a diff command stream between `@` markers for every other one.

use vstd::prelude::*;
use vstd::string::StrSliceExecFns;

use crate::error::{ErrKind, ParseError};
use crate::parsers::chars::{run_end, skip_ws, ws_pred};
use crate::parsers::combinators::{match_at, match_key};
use crate::parsers::diff::{parse_diff_command_at, sp_diff_cmd};
use crate::parsers::num::{parse_num_at, sp_num};
use crate::parsers::string::{parse_string_at, sp_string};
use crate::parsers::PResult;
use crate::{DeltaText, DeltaTextSp, DiffCommand, DiffCommandSp, Text, TextSp};

verus! {

/// The prefix the two `deltatext` forms share: a bare revision number,
/// whitespace, `log`, whitespace, and the log string.
pub open spec fn sp_deltatext_prefix(s: Seq<char>, i: int) -> Option<
    (int, (Seq<u32>, Seq<char>)),
> {
    match sp_num(s, i) {
        None => None,
        Some((p1, num)) => {
            let w1 = run_end(s, p1, ws_pred());
            if w1 == p1 || !match_at(s, w1, "log"@) {
                None
            } else {
                let k = w1 + "log"@.len();
                let w2 = run_end(s, k, ws_pred());
                if w2 == k {
                    None
                } else {
                    match sp_string(s, w2) {
                        None => None,
                        Some((p2, log)) => Some((p2, (num, log))),
                    }
                }
            }
        },
    }
}

/// The suffix shared by both forms: whitespace, `text`, whitespace, up to
/// the start of the body.
pub open spec fn sp_text_keyword(s: Seq<char>, i: int) -> Option<int> {
    let w1 = run_end(s, i, ws_pred());
    if w1 == i || !match_at(s, w1, "text"@) {
        None
    } else {
        let k = w1 + "text"@.len();
        let w2 = run_end(s, k, ws_pred());
        if w2 == k {
            None
        } else {
            Some(w2)
        }
    }
}

/// The diff commands of an ordinary body, as many as the input carries.
pub open spec fn sp_diff_cmds(s: Seq<char>, i: int) -> (int, Seq<DiffCommandSp>)
    decreases s.len() - i,
{
    match sp_diff_cmd(s, i) {
        Some((q, c)) => if i < q <= s.len() {
            let (e, rest) = sp_diff_cmds(s, q);
            (e, seq![c] + rest)
        } else {
            (i, Seq::empty())
        },
        None => (i, Seq::empty()),
    }
}

/// An ordinary `deltatext` block at a position: its body is a diff
/// command stream between `@` markers.
pub open spec fn sp_deltatext(s: Seq<char>, i: int) -> Option<(int, DeltaTextSp)> {
    match sp_deltatext_prefix(s, i) {
        None => None,
        Some((p2, (num, log))) => match sp_text_keyword(s, p2) {
            None => None,
            Some(b) => if b < s.len() && s[b] == '@' {
                let (e, cmds) = sp_diff_cmds(s, b + 1);
                if e < s.len() && s[e] == '@' {
                    Some((e + 1, DeltaTextSp { num, log, text: TextSp::Diff(cmds) }))
                } else {
                    None
                }
            } else {
                None
            },
        },
    }
}

/// A head `deltatext` block at a position: its body is a plain string.
pub open spec fn sp_deltatext_head(s: Seq<char>, i: int) -> Option<(int, DeltaTextSp)> {
    match sp_deltatext_prefix(s, i) {
        None => None,
        Some((p2, (num, log))) => match sp_text_keyword(s, p2) {
            None => None,
            Some(b) => match sp_string(s, b) {
                None => None,
                Some((e, body)) => Some((e, DeltaTextSp { num, log, text: TextSp::Head(body) })),
            },
        },
    }
}

/// Parses the shared `num log string` prefix at a position.
fn parse_deltatext_prefix(s: &[char], pos: usize) -> (r: PResult<(crate::num::Num, String)>)
    requires
        pos <= s.len(),
    ensures
        match r {
            Ok((q, v)) => sp_deltatext_prefix(s@, pos as int) == Some(
                (q as int, (v.0@, v.1@)),
            ) && pos < q <= s.len(),
            Err(e) => {
                &&& sp_deltatext_prefix(s@, pos as int) is None
                &&& e.wf()
                &&& e.trace@.len() >= 2
                &&& e.trace@.last().pos == pos
                &&& e.trace@.last().kind matches ErrKind::Context(c) && c@ == "DeltaText"@
            },
        },
{
    let num = match parse_num_at(s, pos) {
        Err(e) => {
            return Err(e.with_context(pos, "DeltaText"));
        },
        Ok(o) => o,
    };
    let w1 = skip_ws(s, num.0);
    if w1 == num.0 {
        return Err(ParseError::new(w1, ErrKind::MultiSpace).with_context(pos, "DeltaText"));
    }
    let kc = crate::parsers::str_to_chars("log");
    if !match_key(s, w1, kc.as_slice()) {
        return Err(ParseError::new(w1, ErrKind::Tag).with_context(pos, "DeltaText"));
    }
    assert(w1 + kc@.len() <= s.len());
    let k = w1 + kc.len();
    let w2 = skip_ws(s, k);
    if w2 == k {
        return Err(ParseError::new(w2, ErrKind::MultiSpace).with_context(pos, "DeltaText"));
    }
    match parse_string_at(s, w2) {
        Err(e) => Err(e.with_context(pos, "DeltaText")),
        Ok((p2, log)) => Ok((p2, (num.1, log))),
    }
}

/// Parses the `text` keyword and the whitespace after it at a position;
/// failures name the surrounding rule, whose start is `ctx_pos`.
fn parse_text_keyword(s: &[char], pos: usize, ctx_pos: usize) -> (r: Result<usize, ParseError>)
    requires
        pos <= s.len(),
    ensures
        match r {
            Ok(b) => sp_text_keyword(s@, pos as int) == Some(b as int) && pos <= b <= s.len(),
            Err(e) => {
                &&& sp_text_keyword(s@, pos as int) is None
                &&& e.wf()
                &&& e.trace@.len() >= 2
                &&& e.trace@.last().pos == ctx_pos
                &&& e.trace@.last().kind matches ErrKind::Context(c) && c@ == "DeltaText"@
            },
        },
{
    let w1 = skip_ws(s, pos);
    if w1 == pos {
        return Err(ParseError::new(w1, ErrKind::MultiSpace).with_context(ctx_pos, "DeltaText"));
    }
    let kc = crate::parsers::str_to_chars("text");
    if !match_key(s, w1, kc.as_slice()) {
        return Err(ParseError::new(w1, ErrKind::Tag).with_context(ctx_pos, "DeltaText"));
    }
    assert(w1 + kc@.len() <= s.len());
    let k = w1 + kc.len();
    let w2 = skip_ws(s, k);
    if w2 == k {
        return Err(ParseError::new(w2, ErrKind::MultiSpace).with_context(ctx_pos, "DeltaText"));
    }
    Ok(w2)
}

/// Parses an ordinary `deltatext` block at a position.
pub fn parse_deltatext_at(s: &[char], pos: usize) -> (r: PResult<DeltaText>)
    requires
        pos <= s.len(),
    ensures
        match r {
            Ok((q, v)) => sp_deltatext(s@, pos as int) == Some((q as int, v@)) && pos < q
                <= s.len(),
            Err(e) => {
                &&& sp_deltatext(s@, pos as int) is None
                &&& e.wf()
                &&& e.trace@.len() >= 2
                &&& e.trace@.last().pos == pos
                &&& e.trace@.last().kind matches ErrKind::Context(c) && c@ == "DeltaText"@
            },
        },
{
    let prefix = match parse_deltatext_prefix(s, pos) {
        Err(e) => {
            return Err(e);
        },
        Ok(o) => o,
    };
    let b = match parse_text_keyword(s, prefix.0, pos) {
        Err(e) => {
            return Err(e);
        },
        Ok(o) => o,
    };
    if b == s.len() || s[b] != '@' {
        return Err(ParseError::new(b, ErrKind::Tag).with_context(pos, "DeltaText"));
    }
    let mut cmds: Vec<DiffCommand> = Vec::new();
    let mut cur = b + 1;
    loop
        invariant
            b + 1 <= cur <= s.len(),
            sp_diff_cmds(s@, b + 1) == {
                let (e, rest) = sp_diff_cmds(s@, cur as int);
                (e, crate::views_of(cmds@) + rest)
            },
        ensures
            cur <= s.len(),
            sp_diff_cmds(s@, b + 1) == (cur as int, crate::views_of(cmds@)),
        decreases s@.len() - cur,
    {
        let ghost m0 = crate::views_of(cmds@);
        match parse_diff_command_at(s, cur) {
            Err(_) => {
                proof {
                    assert(m0 + Seq::<DiffCommandSp>::empty() =~= m0);
                }
                break;
            },
            Ok((q, c)) => {
                let ghost cv = c@;
                cmds.push(c);
                proof {
                    assert(crate::views_of(cmds@) =~= m0.push(cv));
                    let (e3, rest) = sp_diff_cmds(s@, q as int);
                    assert(m0 + (seq![cv] + rest) =~= m0.push(cv) + rest);
                }
                cur = q;
            },
        }
    }
    if cur == s.len() || s[cur] != '@' {
        return Err(ParseError::new(cur, ErrKind::Tag).with_context(pos, "DeltaText"));
    }
    let (num, log) = prefix.1;
    Ok((cur + 1, DeltaText { num, log, text: Text::Diff(cmds) }))
}

/// Parses a head `deltatext` block at a position.
pub fn parse_deltatext_head_at(s: &[char], pos: usize) -> (r: PResult<DeltaText>)
    requires
        pos <= s.len(),
    ensures
        match r {
            Ok((q, v)) => sp_deltatext_head(s@, pos as int) == Some((q as int, v@)) && pos < q
                <= s.len(),
            Err(e) => {
                &&& sp_deltatext_head(s@, pos as int) is None
                &&& e.wf()
                &&& e.trace@.len() >= 2
                &&& e.trace@.last().pos == pos
                &&& e.trace@.last().kind matches ErrKind::Context(c) && c@ == "DeltaText"@
            },
        },
{
    let prefix = match parse_deltatext_prefix(s, pos) {
        Err(e) => {
            return Err(e);
        },
        Ok(o) => o,
    };
    let b = match parse_text_keyword(s, prefix.0, pos) {
        Err(e) => {
            return Err(e);
        },
        Ok(o) => o,
    };
    match parse_string_at(s, b) {
        Err(e) => Err(e.with_context(pos, "DeltaText")),
        Ok((e, body)) => {
            let (num, log) = prefix.1;
            Ok((e, DeltaText { num, log, text: Text::Head(body) }))
        },
    }
}

/// Parses an ordinary `deltatext` block at the start of the input;
/// returns the remainder and the block.
pub fn parse_deltatext<'a>(input: &'a str) -> (r: Result<(&'a str, DeltaText), ParseError>)
    ensures
        match r {
            Ok((rem, v)) => {
                &&& sp_deltatext(input@, 0) matches Some((e, t))
                &&& v@ == t
                &&& rem@ == input@.subrange(e, input@.len() as int)
            },
            Err(e) => {
                &&& sp_deltatext(input@, 0) is None
                &&& e.wf()
                &&& e.trace@.len() >= 2
                &&& e.trace@.last().pos == 0
                &&& e.trace@.last().kind matches ErrKind::Context(c) && c@ == "DeltaText"@
            },
        },
{
    let cs = crate::parsers::str_to_chars(input);
    let n = cs.len();
    match parse_deltatext_at(cs.as_slice(), 0) {
        Ok((e, v)) => {
            let rem = input.substring_char(e, n);
            Ok((rem, v))
        },
        Err(e) => Err(e),
    }
}

/// Parses a head `deltatext` block at the start of the input; returns
/// the remainder and the block.
pub fn parse_deltatext_head<'a>(input: &'a str) -> (r: Result<(&'a str, DeltaText), ParseError>)
    ensures
        match r {
            Ok((rem, v)) => {
                &&& sp_deltatext_head(input@, 0) matches Some((e, t))
                &&& v@ == t
                &&& rem@ == input@.subrange(e, input@.len() as int)
            },
            Err(e) => {
                &&& sp_deltatext_head(input@, 0) is None
                &&& e.wf()
                &&& e.trace@.len() >= 2
                &&& e.trace@.last().pos == 0
                &&& e.trace@.last().kind matches ErrKind::Context(c) && c@ == "DeltaText"@
            },
        },
{
    let cs = crate::parsers::str_to_chars(input);
    let n = cs.len();
    match parse_deltatext_head_at(cs.as_slice(), 0) {
        Ok((e, v)) => {
            let rem = input.substring_char(e, n);
            Ok((rem, v))
        },
        Err(e) => Err(e),
    }
}

} // verus!
