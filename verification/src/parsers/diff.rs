//! The diff instruction stream embedded in an ordinary delta body:
//! `("a" | "d") position count line-ending`, where an `a` command is
//! followed by exactly `count` raw lines that still use the doubled-`@`
//! escape, and a `d` command carries no body.

use vstd::prelude::*;
use vstd::string::StrSliceExecFns;

use crate::error::{ErrKind, ParseError};
use crate::parsers::chars::{
    digit_pred, is_digit_sp, lemma_run_end, run_end, scan_digits, skip_spaces, skip_ws,
    space_pred, ws_pred,
};
use crate::parsers::num::{digits_val, read_group};
use crate::parsers::string::prepend_all;
use crate::parsers::PResult;
use crate::DiffCommand;
use crate::DiffCommandSp;

verus! {

/// Decodes one raw line of an `a` command body, up to and including its
/// line ending: `@@` stands for one `@`, a lone `@`, a bare carriage
/// return, or running out of input fails.
pub open spec fn sp_diff_line(s: Seq<char>, i: int) -> Option<(int, Seq<char>)>
    decreases s.len() - i,
{
    if !(0 <= i < s.len()) {
        None
    } else if s[i] == '\n' {
        Some((i + 1, Seq::empty()))
    } else if s[i] == '\r' {
        if i + 1 < s.len() && s[i + 1] == '\n' {
            Some((i + 2, Seq::empty()))
        } else {
            None
        }
    } else if s[i] == '@' {
        if i + 1 < s.len() && s[i + 1] == '@' {
            prepend_all(seq!['@'], sp_diff_line(s, i + 2))
        } else {
            None
        }
    } else {
        prepend_all(seq![s[i]], sp_diff_line(s, i + 1))
    }
}

/// The position at which the scan of a raw line stops: the line ending
/// for a line that ends, the offending lone `@`, bare carriage return,
/// or end of input for one that does not.
pub open spec fn sp_diff_line_stop(s: Seq<char>, i: int) -> int
    decreases s.len() - i,
{
    if !(0 <= i < s.len()) {
        i
    } else if s[i] == '\n' || s[i] == '\r' {
        i
    } else if s[i] == '@' {
        if i + 1 < s.len() && s[i + 1] == '@' {
            sp_diff_line_stop(s, i + 2)
        } else {
            i
        }
    } else {
        sp_diff_line_stop(s, i + 1)
    }
}

/// Prepends already-read lines to the result of reading a rest.
pub open spec fn prepend_lines(v: Seq<Seq<char>>, o: Option<(int, Seq<Seq<char>>)>) -> Option<
    (int, Seq<Seq<char>>),
> {
    match o {
        Some((e, t)) => Some((e, v + t)),
        None => None,
    }
}

/// Reads exactly `n` raw lines; too little input fails the whole rule.
pub open spec fn sp_diff_lines(s: Seq<char>, i: int, n: int) -> Option<(int, Seq<Seq<char>>)>
    decreases n,
{
    if n <= 0 {
        Some((i, Seq::empty()))
    } else {
        match sp_diff_line(s, i) {
            None => None,
            Some((e, l)) => prepend_lines(seq![l], sp_diff_lines(s, e, n - 1)),
        }
    }
}

/// The diff command rule at a position: optional whitespace, an opcode
/// `a` or `d`, two whitespace-separated decimal arguments, horizontal
/// space, a line ending, and for `a` exactly `count` raw lines.
pub open spec fn sp_diff_cmd(s: Seq<char>, i: int) -> Option<(int, DiffCommandSp)> {
    let a1 = run_end(s, i, ws_pred());
    if !(a1 < s.len() && (s[a1] == 'a' || s[a1] == 'd')) {
        None
    } else {
        let a2 = run_end(s, a1 + 1, ws_pred());
        if !(a2 < s.len() && is_digit_sp(s[a2])) {
            None
        } else {
            let g1 = run_end(s, a2, digit_pred());
            if digits_val(s, a2, g1) > u32::MAX {
                None
            } else {
                let a3 = run_end(s, g1, ws_pred());
                if a3 == g1 {
                    None
                } else if !(a3 < s.len() && is_digit_sp(s[a3])) {
                    None
                } else {
                    let g2 = run_end(s, a3, digit_pred());
                    if digits_val(s, a3, g2) > u32::MAX {
                        None
                    } else {
                        let v1 = digits_val(s, a2, g1) as u32;
                        let v2 = digits_val(s, a3, g2) as u32;
                        let a4 = run_end(s, g2, space_pred());
                        let hdr = if a4 < s.len() && s[a4] == '\n' {
                            Some(a4 + 1)
                        } else if a4 < s.len() && s[a4] == '\r' && a4 + 1 < s.len() && s[a4 + 1]
                            == '\n' {
                            Some(a4 + 2)
                        } else {
                            None
                        };
                        match hdr {
                            None => None,
                            Some(h) => if s[a1] == 'd' {
                                Some((h, DiffCommandSp::Delete(v1, v2)))
                            } else {
                                match sp_diff_lines(s, h, v2 as int) {
                                    None => None,
                                    Some((e, lines)) => Some((e, DiffCommandSp::Add(v1, lines))),
                                }
                            },
                        }
                    }
                }
            }
        }
    }
}

/// The start of the first line of a counted body that fails to scan; the
/// end of the body when all `n` lines scan.
pub open spec fn sp_diff_lines_fail_start(s: Seq<char>, i: int, n: int) -> int
    decreases n,
{
    if n <= 0 {
        i
    } else {
        match sp_diff_line(s, i) {
            None => i,
            Some((e, l)) => sp_diff_lines_fail_start(s, e, n - 1),
        }
    }
}

/// A two-frame failure trace of the diff command rule: the failing token
/// at its position, then the rule's context frame.
pub open spec fn diff_frames2(tr: Seq<crate::error::TraceEntry>, p: int, k: ErrKind, cp: int) -> bool {
    &&& tr.len() == 2
    &&& tr[0].pos == p
    &&& tr[0].kind == k
    &&& tr[1].pos == cp
    &&& tr[1].kind matches ErrKind::Context(c) && c@ == "Diff"@
}

/// The exact failure trace of the diff command rule at a position: a
/// two-frame trace for a failing header, and for a short `a` body the
/// failing line's trace below a counted-repetition frame and a second
/// context frame.
pub open spec fn diff_cmd_err_trace(s: Seq<char>, i: int, tr: Seq<crate::error::TraceEntry>) -> bool {
    let a1 = run_end(s, i, ws_pred());
    if !(a1 < s.len() && (s[a1] == 'a' || s[a1] == 'd')) {
        diff_frames2(tr, a1, ErrKind::OneOf, i)
    } else {
        let a2 = run_end(s, a1 + 1, ws_pred());
        if !(a2 < s.len() && is_digit_sp(s[a2])) {
            diff_frames2(tr, a2, ErrKind::Digit, i)
        } else {
            let g1 = run_end(s, a2, digit_pred());
            if digits_val(s, a2, g1) > u32::MAX {
                diff_frames2(tr, a2, ErrKind::Digit, i)
            } else {
                let a3 = run_end(s, g1, ws_pred());
                if a3 == g1 {
                    diff_frames2(tr, g1, ErrKind::MultiSpace, i)
                } else if !(a3 < s.len() && is_digit_sp(s[a3])) {
                    diff_frames2(tr, a3, ErrKind::Digit, i)
                } else {
                    let g2 = run_end(s, a3, digit_pred());
                    if digits_val(s, a3, g2) > u32::MAX {
                        diff_frames2(tr, a3, ErrKind::Digit, i)
                    } else {
                        let a4 = run_end(s, g2, space_pred());
                        let okn = a4 < s.len() && s[a4] == '\n';
                        let okrn = a4 < s.len() && s[a4] == '\r' && a4 + 1 < s.len() && s[a4 + 1]
                            == '\n';
                        if !okn && !okrn {
                            diff_frames2(tr, a4, ErrKind::CrLf, i)
                        } else {
                            let h = if okn {
                                a4 + 1
                            } else {
                                a4 + 2
                            };
                            let ls = sp_diff_lines_fail_start(s, h, digits_val(s, a3, g2));
                            &&& tr.len() == 4
                            &&& tr[0].pos == sp_diff_line_stop(s, ls)
                            &&& tr[0].kind == ErrKind::CrLf
                            &&& tr[1].pos == ls
                            &&& tr[1].kind matches ErrKind::Context(c1) && c1@ == "Diff"@
                            &&& tr[2].pos == h
                            &&& tr[2].kind == ErrKind::Count
                            &&& tr[3].pos == h
                            &&& tr[3].kind matches ErrKind::Context(c2) && c2@ == "Diff"@
                        }
                    }
                }
            }
        }
    }
}

/// Parses one raw line of an `a` command body at a position.
pub fn parse_diff_line_at(s: &[char], pos: usize) -> (r: PResult<String>)
    requires
        pos <= s.len(),
    ensures
        match r {
            Ok((q, v)) => sp_diff_line(s@, pos as int) == Some((q as int, v@)) && pos < q
                <= s.len(),
            Err(e) => {
                &&& sp_diff_line(s@, pos as int) is None
                &&& e.wf()
                &&& e.trace@.len() == 2
                &&& e.trace@[0].pos == sp_diff_line_stop(s@, pos as int)
                &&& e.trace@[0].kind == ErrKind::CrLf
                &&& e.trace@[1].pos == pos
                &&& e.trace@[1].kind matches ErrKind::Context(c) && c@ == "Diff"@
            },
        },
{
    let mut out: Vec<char> = Vec::new();
    let mut j = pos;
    loop
        invariant
            pos <= j <= s.len(),
            prepend_all(out@, sp_diff_line(s@, j as int)) == sp_diff_line(s@, pos as int),
            sp_diff_line_stop(s@, pos as int) == sp_diff_line_stop(s@, j as int),
        decreases s@.len() - j,
    {
        let ghost out0 = out@;
        if j == s.len() {
            return Err(ParseError::new(j, ErrKind::CrLf).with_context(pos, "Diff"));
        }
        let c = s[j];
        if c == '\n' {
            proof {
                assert(out0 + Seq::<char>::empty() =~= out0);
            }
            let v = crate::parsers::chars_to_string(out.as_slice());
            return Ok((j + 1, v));
        } else if c == '\r' {
            if j + 1 < s.len() && s[j + 1] == '\n' {
                proof {
                    assert(out0 + Seq::<char>::empty() =~= out0);
                }
                let v = crate::parsers::chars_to_string(out.as_slice());
                return Ok((j + 2, v));
            } else {
                return Err(ParseError::new(j, ErrKind::CrLf).with_context(pos, "Diff"));
            }
        } else if c == '@' {
            if j + 1 < s.len() && s[j + 1] == '@' {
                out.push('@');
                proof {
                    if let Some((e, t)) = sp_diff_line(s@, j + 2) {
                        assert(out0 + (seq!['@'] + t) =~= out0.push('@') + t);
                    }
                }
                j = j + 2;
            } else {
                return Err(ParseError::new(j, ErrKind::CrLf).with_context(pos, "Diff"));
            }
        } else {
            out.push(c);
            proof {
                if let Some((e, t)) = sp_diff_line(s@, j + 1) {
                    assert(out0 + (seq![s@[j as int]] + t) =~= out0.push(s@[j as int]) + t);
                }
            }
            j = j + 1;
        }
    }
}

/// Parses one diff command at a position.
#[verifier::loop_isolation(false)]
pub fn parse_diff_command_at(s: &[char], pos: usize) -> (r: PResult<DiffCommand>)
    requires
        pos <= s.len(),
    ensures
        match r {
            Ok((q, v)) => sp_diff_cmd(s@, pos as int) == Some((q as int, v@)) && pos < q
                <= s.len(),
            Err(e) => {
                &&& sp_diff_cmd(s@, pos as int) is None
                &&& e.wf()
                &&& diff_cmd_err_trace(s@, pos as int, e.trace@)
            },
        },
{
    let a1 = skip_ws(s, pos);
    if a1 == s.len() || !(s[a1] == 'a' || s[a1] == 'd') {
        return Err(ParseError::new(a1, ErrKind::OneOf).with_context(pos, "Diff"));
    }
    let op = s[a1];
    let a2 = skip_ws(s, a1 + 1);
    if a2 == s.len() || !(0x30 <= s[a2] as u32 && s[a2] as u32 <= 0x39) {
        return Err(ParseError::new(a2, ErrKind::Digit).with_context(pos, "Diff"));
    }
    let g1 = scan_digits(s, a2);
    proof {
        lemma_run_end(s@, a2 as int, digit_pred());
    }
    let v1 = match read_group(s, a2, g1) {
        None => {
            return Err(ParseError::new(a2, ErrKind::Digit).with_context(pos, "Diff"));
        },
        Some(v) => v,
    };
    let a3 = skip_ws(s, g1);
    if a3 == g1 {
        return Err(ParseError::new(g1, ErrKind::MultiSpace).with_context(pos, "Diff"));
    }
    if a3 == s.len() || !(0x30 <= s[a3] as u32 && s[a3] as u32 <= 0x39) {
        return Err(ParseError::new(a3, ErrKind::Digit).with_context(pos, "Diff"));
    }
    let g2 = scan_digits(s, a3);
    proof {
        lemma_run_end(s@, a3 as int, digit_pred());
    }
    let v2 = match read_group(s, a3, g2) {
        None => {
            return Err(ParseError::new(a3, ErrKind::Digit).with_context(pos, "Diff"));
        },
        Some(v) => v,
    };
    let a4 = skip_spaces(s, g2);
    let hdr: usize;
    if a4 < s.len() && s[a4] == '\n' {
        hdr = a4 + 1;
    } else if a4 < s.len() && s[a4] == '\r' && a4 + 1 < s.len() && s[a4 + 1] == '\n' {
        hdr = a4 + 2;
    } else {
        return Err(ParseError::new(a4, ErrKind::CrLf).with_context(pos, "Diff"));
    }
    if op == 'd' {
        return Ok((hdr, DiffCommand::Delete(v1, v2)));
    }
    proof {
        assert(sp_diff_cmd(s@, pos as int) == (match sp_diff_lines(s@, hdr as int, v2 as int) {
            None => None::<(int, DiffCommandSp)>,
            Some((e, ls)) => Some((e, DiffCommandSp::Add(v1, ls))),
        }));
    }
    let mut lines: Vec<String> = Vec::new();
    let mut cur = hdr;
    let mut k: u32 = 0;
    while k < v2
        invariant
            k <= v2,
            hdr <= cur <= s.len(),
            pos < hdr,
            lines@.len() == k,
            sp_diff_cmd(s@, pos as int) == (match sp_diff_lines(s@, hdr as int, v2 as int) {
                None => None::<(int, DiffCommandSp)>,
                Some((e, ls)) => Some((e, DiffCommandSp::Add(v1, ls))),
            }),
            sp_diff_lines(s@, hdr as int, v2 as int) == prepend_lines(
                crate::views_of(lines@),
                sp_diff_lines(s@, cur as int, v2 - k),
            ),
            sp_diff_lines_fail_start(s@, hdr as int, v2 as int) == sp_diff_lines_fail_start(
                s@,
                cur as int,
                v2 - k,
            ),
        decreases v2 - k,
    {
        let ghost lm0 = crate::views_of(lines@);
        match parse_diff_line_at(s, cur) {
            Err(e) => {
                let ghost e0 = e.trace@[0];
                let ghost e1 = e.trace@[1];
                let r2 = e.push_kind(hdr, ErrKind::Count).with_context(hdr, "Diff");
                proof {
                    assert(sp_diff_lines_fail_start(s@, cur as int, v2 - k) == cur as int);
                    assert(sp_diff_lines_fail_start(s@, hdr as int, v2 as int) == cur as int);
                    assert(r2.trace@.len() == 4);
                    assert(r2.trace@[0] == e0);
                    assert(r2.trace@[1] == e1);
                    assert(diff_cmd_err_trace(s@, pos as int, r2.trace@));
                }
                return Err(r2);
            },
            Ok((e2, l)) => {
                let ghost lv = l@;
                lines.push(l);
                proof {
                    assert(crate::views_of(lines@) =~= lm0.push(lv));
                    if let Some((e3, t)) = sp_diff_lines(s@, e2 as int, v2 - k - 1) {
                        assert(lm0 + (seq![lv] + t) =~= lm0.push(lv) + t);
                    }
                }
                cur = e2;
                k = k + 1;
            },
        }
    }
    proof {
        assert(crate::views_of(lines@) + Seq::<Seq<char>>::empty() =~= crate::views_of(lines@));
    }
    Ok((cur, DiffCommand::Add(v1, lines)))
}

/// Parses one raw diff line at the start of the input; returns the
/// remainder and the decoded line.
pub fn parse_diff_line<'a>(input: &'a str) -> (r: Result<(&'a str, String), ParseError>)
    ensures
        match r {
            Ok((rem, v)) => {
                &&& sp_diff_line(input@, 0) matches Some((e, t))
                &&& v@ == t
                &&& rem@ == input@.subrange(e, input@.len() as int)
            },
            Err(e) => {
                &&& sp_diff_line(input@, 0) is None
                &&& e.wf()
                &&& e.trace@.len() == 2
                &&& e.trace@[0].pos == sp_diff_line_stop(input@, 0)
                &&& e.trace@[0].kind == ErrKind::CrLf
                &&& e.trace@[1].pos == 0
                &&& e.trace@[1].kind matches ErrKind::Context(c) && c@ == "Diff"@
            },
        },
{
    let cs = crate::parsers::str_to_chars(input);
    let n = cs.len();
    match parse_diff_line_at(cs.as_slice(), 0) {
        Ok((e, v)) => {
            let rem = input.substring_char(e, n);
            Ok((rem, v))
        },
        Err(e) => Err(e),
    }
}

/// Parses one diff command at the start of the input; returns the
/// remainder and the command.
pub fn parse_diff_command<'a>(input: &'a str) -> (r: Result<(&'a str, DiffCommand), ParseError>)
    ensures
        match r {
            Ok((rem, v)) => {
                &&& sp_diff_cmd(input@, 0) matches Some((e, c))
                &&& v@ == c
                &&& rem@ == input@.subrange(e, input@.len() as int)
            },
            Err(e) => {
                &&& sp_diff_cmd(input@, 0) is None
                &&& e.wf()
                &&& diff_cmd_err_trace(input@, 0, e.trace@)
            },
        },
{
    let cs = crate::parsers::str_to_chars(input);
    let n = cs.len();
    match parse_diff_command_at(cs.as_slice(), 0) {
        Ok((e, v)) => {
            let rem = input.substring_char(e, n);
            Ok((rem, v))
        },
        Err(e) => Err(e),
    }
}

} // verus!
