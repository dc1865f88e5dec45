//! One per-revision metadata block: a bare revision number followed by
//! the fixed clause sequence `date`, `author`, optional-payload `state`,
//! `branches`, optional-payload `next`, and an optional whole `commitid`
//! clause.

use vstd::prelude::*;
use vstd::string::StrSliceExecFns;

use crate::error::{ErrKind, ParseError};
use crate::parsers::chars::{run_end, skip_ws, ws_pred, IdParser, SymParser};
use crate::parsers::combinators::{
    parse_value_all_opt_at, parse_value_at, parse_value_many0_at, parse_value_opt_at, sp_value,
    sp_value_all_opt, sp_value_many0, sp_value_opt,
};
use crate::parsers::num::{parse_num_at, sp_num, NumParser};
use crate::parsers::PResult;
use crate::{Delta, DeltaSp, DiffCommand, DiffCommandSp, Text, TextSp};

verus! {

/// One delta header at a position.  The delta it yields still has its
/// placeholder log and body: the merge step fills them in later.
pub open spec fn sp_delta(s: Seq<char>, i: int) -> Option<(int, DeltaSp)> {
    let a = run_end(s, i, ws_pred());
    match sp_num(s, a) {
        None => None,
        Some((p1, num)) => match sp_value::<NumParser>(s, p1, "date"@) {
            None => None,
            Some((p2, date)) => match sp_value::<IdParser>(s, p2, "author"@) {
                None => None,
                Some((p3, author)) => match sp_value_opt::<IdParser>(s, p3, "state"@) {
                    None => None,
                    Some((p4, state)) => match sp_value_many0::<NumParser>(s, p4, "branches"@) {
                        None => None,
                        Some((p5, branches)) => match sp_value_opt::<NumParser>(s, p5, "next"@) {
                            None => None,
                            Some((p6, next)) => {
                                let (p7, commitid) = sp_value_all_opt::<SymParser>(
                                    s,
                                    p6,
                                    "commitid"@,
                                );
                                Some(
                                    (
                                        p7,
                                        DeltaSp {
                                            num,
                                            date,
                                            author,
                                            state,
                                            branches,
                                            next,
                                            commitid,
                                            log: Seq::empty(),
                                            text: TextSp::Diff(Seq::empty()),
                                        },
                                    ),
                                )
                            },
                        },
                    },
                },
            },
        },
    }
}

/// Parses one delta header at a position.
pub fn parse_delta_at(s: &[char], pos: usize) -> (r: PResult<Delta>)
    requires
        pos <= s.len(),
    ensures
        match r {
            Ok((q, v)) => sp_delta(s@, pos as int) == Some((q as int, v@)) && pos < q <= s.len(),
            Err(e) => {
                &&& sp_delta(s@, pos as int) is None
                &&& e.wf()
                &&& e.trace@.len() >= 2
                &&& e.trace@.last().kind matches ErrKind::Context(c) && c@ == "Delta"@
            },
        },
{
    let a = skip_ws(s, pos);
    let num = match parse_num_at(s, a) {
        Err(e) => {
            return Err(e.with_context(pos, "Delta"));
        },
        Ok(o) => o,
    };
    let date = match parse_value_at(s, num.0, "Delta", "date", &NumParser) {
        Err(e) => {
            return Err(e);
        },
        Ok(o) => o,
    };
    let author = match parse_value_at(s, date.0, "Delta", "author", &IdParser) {
        Err(e) => {
            return Err(e);
        },
        Ok(o) => o,
    };
    let state = match parse_value_opt_at(s, author.0, "Delta", "state", &IdParser) {
        Err(e) => {
            return Err(e);
        },
        Ok(o) => o,
    };
    let branches = match parse_value_many0_at(s, state.0, "Delta", "branches", &NumParser) {
        Err(e) => {
            return Err(e);
        },
        Ok(o) => o,
    };
    let next = match parse_value_opt_at(s, branches.0, "Delta", "next", &NumParser) {
        Err(e) => {
            return Err(e);
        },
        Ok(o) => o,
    };
    let (p7, commitid) = parse_value_all_opt_at(s, next.0, "Delta", "commitid", &SymParser);
    let empty_cmds: Vec<DiffCommand> = Vec::new();
    proof {
        assert(crate::views_of(empty_cmds@) =~= Seq::<DiffCommandSp>::empty());
    }
    let delta = Delta {
        num: num.1,
        date: date.1,
        author: author.1,
        state: state.1,
        branches: branches.1,
        next: next.1,
        commitid,
        log: String::new(),
        text: Text::Diff(empty_cmds),
    };
    proof {
        assert(delta@.log =~= Seq::<char>::empty());
    }
    Ok((p7, delta))
}

/// Parses one delta header at the start of the input; returns the
/// remainder and the delta, with its placeholder log and body.
pub fn parse_delta<'a>(input: &'a str) -> (r: Result<(&'a str, Delta), ParseError>)
    ensures
        match r {
            Ok((rem, v)) => {
                &&& sp_delta(input@, 0) matches Some((e, t))
                &&& v@ == t
                &&& rem@ == input@.subrange(e, input@.len() as int)
            },
            Err(e) => {
                &&& sp_delta(input@, 0) is None
                &&& e.wf()
                &&& e.trace@.len() >= 2
                &&& e.trace@.last().kind matches ErrKind::Context(c) && c@ == "Delta"@
            },
        },
{
    let cs = crate::parsers::str_to_chars(input);
    let n = cs.len();
    match parse_delta_at(cs.as_slice(), 0) {
        Ok((e, v)) => {
            let rem = input.substring_char(e, n);
            Ok((rem, v))
        },
        Err(e) => Err(e),
    }
}

} // verus!
