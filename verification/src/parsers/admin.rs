//! The administrative header of a document: the fixed clause sequence
//! `head`, optional `branch`, `access`, `symbols`, `locks`, optional bare
//! `strict;`, and the optional `integrity`, `comment` and `expand`
//! clauses, in this order and no other.

use vstd::prelude::*;
use vstd::string::StrSliceExecFns;

use crate::error::{ErrKind, ParseError};
use crate::num::Num;
use crate::parsers::chars::{parse_id_at, parse_sym_at, run_end, skip_ws, sp_id, sp_sym, ws_pred};
use crate::parsers::combinators::{
    match_at, match_key, parse_value_all_opt_at, parse_value_at, parse_value_many0_at, sp_value,
    sp_value_all_opt, sp_value_many0, Payload,
};
use crate::parsers::num::{parse_num_at, sp_num, NumParser};
use crate::parsers::string::{IntStringParser, StringParser};
use crate::parsers::PResult;
use crate::parsers::chars::IdParser;
use crate::RcsData;
use crate::RcsDataSp;

verus! {

/// The `sym ":" num` payload of the `symbols` clause.
pub open spec fn sp_sym_num_pair(s: Seq<char>, i: int) -> Option<(int, (Seq<char>, Seq<u32>))> {
    match sp_sym(s, i) {
        None => None,
        Some((e1, name)) => if e1 < s.len() && s[e1] == ':' {
            match sp_num(s, e1 + 1) {
                None => None,
                Some((e2, n)) => Some((e2, (name, n))),
            }
        } else {
            None
        },
    }
}

/// The `id ":" num` payload of the `locks` clause.
pub open spec fn sp_id_num_pair(s: Seq<char>, i: int) -> Option<(int, (Seq<char>, Seq<u32>))> {
    match sp_id(s, i) {
        None => None,
        Some((e1, name)) => if e1 < s.len() && s[e1] == ':' {
            match sp_num(s, e1 + 1) {
                None => None,
                Some((e2, n)) => Some((e2, (name, n))),
            }
        } else {
            None
        },
    }
}

/// Parses one `sym ":" num` pair at a position.
pub fn parse_sym_num_at(s: &[char], pos: usize) -> (r: PResult<(String, Num)>)
    requires
        pos <= s.len(),
    ensures
        match r {
            Ok((q, v)) => sp_sym_num_pair(s@, pos as int) == Some((q as int, v@)) && pos <= q
                <= s.len(),
            Err(e) => sp_sym_num_pair(s@, pos as int) is None && e.wf(),
        },
{
    match parse_sym_at(s, pos) {
        Err(e) => Err(e),
        Ok((e1, name)) => {
            if e1 == s.len() || s[e1] != ':' {
                return Err(ParseError::new(e1, ErrKind::Tag));
            }
            match parse_num_at(s, e1 + 1) {
                Err(e) => Err(e),
                Ok((e2, n)) => Ok((e2, (name, n))),
            }
        },
    }
}

/// Parses one `id ":" num` pair at a position.
pub fn parse_id_num_at(s: &[char], pos: usize) -> (r: PResult<(String, Num)>)
    requires
        pos <= s.len(),
    ensures
        match r {
            Ok((q, v)) => sp_id_num_pair(s@, pos as int) == Some((q as int, v@)) && pos <= q
                <= s.len(),
            Err(e) => sp_id_num_pair(s@, pos as int) is None && e.wf(),
        },
{
    match parse_id_at(s, pos) {
        Err(e) => Err(e),
        Ok((e1, name)) => {
            if e1 == s.len() || s[e1] != ':' {
                return Err(ParseError::new(e1, ErrKind::Tag));
            }
            match parse_num_at(s, e1 + 1) {
                Err(e) => Err(e),
                Ok((e2, n)) => Ok((e2, (name, n))),
            }
        },
    }
}

/// The `sym ":" num` pair as a clause payload.
pub struct SymNumPairParser;

impl Payload for SymNumPairParser {
    type Out = (String, Num);

    open spec fn sp(s: Seq<char>, i: int) -> Option<(int, (Seq<char>, Seq<u32>))> {
        sp_sym_num_pair(s, i)
    }

    fn parse(&self, s: &[char], pos: usize) -> (r: PResult<(String, Num)>) {
        parse_sym_num_at(s, pos)
    }
}

/// The `id ":" num` pair as a clause payload.
pub struct IdNumPairParser;

impl Payload for IdNumPairParser {
    type Out = (String, Num);

    open spec fn sp(s: Seq<char>, i: int) -> Option<(int, (Seq<char>, Seq<u32>))> {
        sp_id_num_pair(s, i)
    }

    fn parse(&self, s: &[char], pos: usize) -> (r: PResult<(String, Num)>) {
        parse_id_num_at(s, pos)
    }
}

/// The optional bare `strict ;` clause: consumed with `true` when whole,
/// untouched with `false` otherwise.
pub open spec fn sp_strict(s: Seq<char>, i: int) -> (int, bool) {
    let a = run_end(s, i, ws_pred());
    if match_at(s, a, "strict"@) {
        let c = run_end(s, a + "strict"@.len(), ws_pred());
        if c < s.len() && s[c] == ';' {
            (c + 1, true)
        } else {
            (i, false)
        }
    } else {
        (i, false)
    }
}

/// Parses the optional bare `strict ;` clause at a position.
pub fn parse_strict_at(s: &[char], pos: usize) -> (r: (usize, bool))
    requires
        pos <= s.len(),
    ensures
        sp_strict(s@, pos as int) == (r.0 as int, r.1),
        pos <= r.0 <= s.len(),
{
    let kc = crate::parsers::str_to_chars("strict");
    let a = skip_ws(s, pos);
    if !match_key(s, a, kc.as_slice()) {
        return (pos, false);
    }
    assert(a + kc@.len() <= s.len());
    let c = skip_ws(s, a + kc.len());
    if c < s.len() && s[c] == ';' {
        (c + 1, true)
    } else {
        (pos, false)
    }
}

/// Parses the optional bare `strict ;` clause at the start of the input;
/// returns the remainder and whether the clause was present.
pub fn parse_strict<'a>(input: &'a str) -> (r: (&'a str, bool))
    ensures
        ({
            let (e, b) = sp_strict(input@, 0);
            r.1 == b && r.0@ == input@.subrange(e, input@.len() as int)
        }),
{
    let cs = crate::parsers::str_to_chars(input);
    let n = cs.len();
    let (e, b) = parse_strict_at(cs.as_slice(), 0);
    let rem = input.substring_char(e, n);
    (rem, b)
}

/// The whole administrative header at a position.  The document it
/// yields still has an empty description and no deltas.
pub open spec fn sp_admin(s: Seq<char>, i: int) -> Option<(int, RcsDataSp)> {
    match sp_value::<NumParser>(s, i, "head"@) {
        None => None,
        Some((p1, head)) => {
            let (p2, branch) = sp_value_all_opt::<NumParser>(s, p1, "branch"@);
            match sp_value_many0::<IdParser>(s, p2, "access"@) {
                None => None,
                Some((p3, access)) => match sp_value_many0::<SymNumPairParser>(s, p3, "symbols"@) {
                    None => None,
                    Some((p4, symbols)) => match sp_value_many0::<IdNumPairParser>(
                        s,
                        p4,
                        "locks"@,
                    ) {
                        None => None,
                        Some((p5, locks)) => {
                            let (p6, strict) = sp_strict(s, p5);
                            let (p7, integrity) = sp_value_all_opt::<IntStringParser>(
                                s,
                                p6,
                                "integrity"@,
                            );
                            let (p8, comment) = sp_value_all_opt::<StringParser>(s, p7, "comment"@);
                            let (p9, expand) = sp_value_all_opt::<StringParser>(s, p8, "expand"@);
                            Some(
                                (
                                    p9,
                                    RcsDataSp {
                                        head,
                                        branch,
                                        access,
                                        symbols,
                                        locks,
                                        strict,
                                        integrity,
                                        comment,
                                        expand,
                                        desc: Seq::empty(),
                                        deltas: Seq::empty(),
                                    },
                                ),
                            )
                        },
                    },
                },
            }
        },
    }
}

/// An administrative header reads the same from any position inside the
/// whitespace run that precedes its first token: the amount of leading
/// whitespace never changes the parsed fields.
pub proof fn lemma_admin_leading_ws(s: Seq<char>, i: int, j: int)
    requires
        0 <= i <= j,
        j <= run_end(s, i, ws_pred()),
    ensures
        sp_admin(s, i) == sp_admin(s, j),
{
    crate::parsers::chars::lemma_run_end_within(s, i, j, ws_pred());
    assert(sp_value::<NumParser>(s, i, "head"@) == sp_value::<NumParser>(s, j, "head"@));
}

/// Parses the administrative header at a position.
pub fn parse_admin_at(s: &[char], pos: usize) -> (r: PResult<RcsData>)
    requires
        pos <= s.len(),
    ensures
        match r {
            Ok((q, v)) => sp_admin(s@, pos as int) == Some((q as int, v@)) && pos <= q <= s.len()
                && v.deltas@.len() == 0,
            Err(e) => {
                &&& sp_admin(s@, pos as int) is None
                &&& e.wf()
                &&& e.trace@.len() >= 2
                &&& e.trace@.last().kind matches ErrKind::Context(c) && c@ == "Admin"@
            },
        },
{
    let head = match parse_value_at(s, pos, "Admin", "head", &NumParser) {
        Err(e) => {
            return Err(e);
        },
        Ok(o) => o,
    };
    let (p2, branch) = parse_value_all_opt_at(s, head.0, "Admin", "branch", &NumParser);
    let access = match parse_value_many0_at(s, p2, "Admin", "access", &IdParser) {
        Err(e) => {
            return Err(e);
        },
        Ok(o) => o,
    };
    let symbols = match parse_value_many0_at(s, access.0, "Admin", "symbols", &SymNumPairParser) {
        Err(e) => {
            return Err(e);
        },
        Ok(o) => o,
    };
    let locks = match parse_value_many0_at(s, symbols.0, "Admin", "locks", &IdNumPairParser) {
        Err(e) => {
            return Err(e);
        },
        Ok(o) => o,
    };
    let (p6, strict) = parse_strict_at(s, locks.0);
    let (p7, integrity) = parse_value_all_opt_at(s, p6, "Admin", "integrity", &IntStringParser);
    let (p8, comment) = parse_value_all_opt_at(s, p7, "Admin", "comment", &StringParser);
    let (p9, expand) = parse_value_all_opt_at(s, p8, "Admin", "expand", &StringParser);
    let data = RcsData {
        head: head.1,
        branch,
        access: access.1,
        symbols: symbols.1,
        locks: locks.1,
        strict,
        integrity,
        comment,
        expand,
        desc: String::new(),
        deltas: Vec::new(),
    };
    proof {
        assert(data@.desc =~= Seq::<char>::empty());
        assert(data@.deltas =~= Seq::<crate::DeltaSp>::empty());
    }
    Ok((p9, data))
}

/// Parses the administrative header at the start of the input; returns
/// the remainder and the document, with its description empty and its
/// deltas not yet filled in.
pub fn parse_admin<'a>(input: &'a str) -> (r: Result<(&'a str, RcsData), ParseError>)
    ensures
        match r {
            Ok((rem, v)) => {
                &&& sp_admin(input@, 0) matches Some((e, t))
                &&& v@ == t
                &&& rem@ == input@.subrange(e, input@.len() as int)
            },
            Err(e) => {
                &&& sp_admin(input@, 0) is None
                &&& e.wf()
                &&& e.trace@.len() >= 2
                &&& e.trace@.last().kind matches ErrKind::Context(c) && c@ == "Admin"@
            },
        },
{
    let cs = crate::parsers::str_to_chars(input);
    let n = cs.len();
    match parse_admin_at(cs.as_slice(), 0) {
        Ok((e, v)) => {
            let rem = input.substring_char(e, n);
            Ok((rem, v))
        },
        Err(e) => Err(e),
    }
}

} // verus!
