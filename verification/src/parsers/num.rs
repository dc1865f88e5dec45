//! The `num` rule: one or more groups of decimal digits separated by
//! periods, `digit+ ("." digit+)*`, read greedily and left to right.

use vstd::prelude::*;
use vstd::string::StrSliceExecFns;

use crate::error::{ErrKind, ParseError};
use crate::num::Num;
use crate::parsers::chars::{digit_pred, is_digit_sp, lemma_run_end, run_end, scan_digits};
use crate::parsers::PResult;

verus! {

/// Numeric value of the digit run `s[i..j]`.
pub open spec fn digits_val(s: Seq<char>, i: int, j: int) -> int
    decreases j - i,
{
    if j <= i {
        0
    } else {
        digits_val(s, i, j - 1) * 10 + (s[j - 1] as u32 - 0x30)
    }
}

/// A digit run has a non-negative value.
pub proof fn lemma_digits_val_nonneg(s: Seq<char>, i: int, j: int)
    requires
        i <= j,
        forall|k: int| i <= k < j ==> is_digit_sp(#[trigger] s[k]),
    ensures
        digits_val(s, i, j) >= 0,
    decreases j - i,
{
    if j > i {
        lemma_digits_val_nonneg(s, i, j - 1);
        assert(is_digit_sp(s[j - 1]));
    }
}

/// The value of a digit run only grows as the run extends.
pub proof fn lemma_digits_val_mono(s: Seq<char>, i: int, j1: int, j2: int)
    requires
        i <= j1 <= j2,
        forall|k: int| i <= k < j2 ==> is_digit_sp(#[trigger] s[k]),
    ensures
        0 <= digits_val(s, i, j1) <= digits_val(s, i, j2),
    decreases j2 - j1,
{
    if j2 == j1 {
        lemma_digits_val_nonneg(s, i, j1);
    } else {
        lemma_digits_val_mono(s, i, j1, j2 - 1);
        assert(is_digit_sp(s[j2 - 1]));
    }
}

/// The groups of a `num` after the first `i`, accumulated in front.
/// A group whose value does not fit in the component type makes the whole
/// rule fail.
pub open spec fn sp_num_rec(s: Seq<char>, i: int, acc: Seq<u32>) -> Option<(int, Seq<u32>)>
    decreases s.len() - i,
        when 0 <= i <= s.len()
        via sp_num_rec_decreases
{
    if !(i < s.len() && is_digit_sp(s[i])) {
        None
    } else {
        let j = run_end(s, i, digit_pred());
        let v = digits_val(s, i, j);
        if v > u32::MAX {
            None
        } else {
            let acc2 = acc.push(v as u32);
            if j + 1 < s.len() && s[j] == '.' && is_digit_sp(s[j + 1]) {
                sp_num_rec(s, j + 1, acc2)
            } else {
                Some((j, acc2))
            }
        }
    }
}

#[via_fn]
proof fn sp_num_rec_decreases(s: Seq<char>, i: int, acc: Seq<u32>) {
    if 0 <= i < s.len() && is_digit_sp(s[i]) {
        lemma_run_end(s, i, digit_pred());
    }
}

/// The `num` rule at a position.
pub open spec fn sp_num(s: Seq<char>, i: int) -> Option<(int, Seq<u32>)> {
    if 0 <= i < s.len() && is_digit_sp(s[i]) {
        sp_num_rec(s, i, Seq::empty())
    } else {
        None
    }
}

/// The position a failing `num` reports: the start of the rule when no
/// digit begins it, else the start of the first group whose value
/// exceeds the component range.  Meaningless when the rule matches.
pub open spec fn sp_num_fail_pos(s: Seq<char>, i: int) -> int
    decreases s.len() - i,
        when 0 <= i <= s.len()
        via sp_num_fail_pos_decreases
{
    if !(i < s.len() && is_digit_sp(s[i])) {
        i
    } else {
        let j = run_end(s, i, digit_pred());
        if digits_val(s, i, j) > u32::MAX {
            i
        } else if j + 1 < s.len() && s[j] == '.' && is_digit_sp(s[j + 1]) {
            sp_num_fail_pos(s, j + 1)
        } else {
            i
        }
    }
}

#[via_fn]
proof fn sp_num_fail_pos_decreases(s: Seq<char>, i: int) {
    if 0 <= i < s.len() && is_digit_sp(s[i]) {
        lemma_run_end(s, i, digit_pred());
    }
}

/// Reads the value of the digit run `s[pos..ge]`, or fails when it
/// exceeds the component range.
pub(crate) fn read_group(s: &[char], pos: usize, ge: usize) -> (r: Option<u32>)
    requires
        pos <= ge <= s.len(),
        forall|k: int| pos <= k < ge ==> is_digit_sp(#[trigger] s@[k]),
    ensures
        match r {
            Some(v) => v as int == digits_val(s@, pos as int, ge as int) && digits_val(
                s@,
                pos as int,
                ge as int,
            ) <= u32::MAX,
            None => digits_val(s@, pos as int, ge as int) > u32::MAX,
        },
{
    let mut val: u32 = 0;
    let mut j = pos;
    while j < ge
        invariant
            pos <= j <= ge <= s.len(),
            forall|k: int| pos <= k < ge ==> is_digit_sp(#[trigger] s@[k]),
            val as int == digits_val(s@, pos as int, j as int),
        decreases ge - j,
    {
        let c = s[j];
        assert(is_digit_sp(c));
        let d: u32 = (c as u32) - 0x30;
        assert(d <= 9);
        if val > (0xffff_ffffu32 - d) / 10 {
            proof {
                assert(10 * (val as int) + d > 0xffff_ffff) by (nonlinear_arith)
                    requires
                        val as int > (0xffff_ffffint - d) / 10,
                        0 <= d <= 9,
                        val >= 0,
                ;
                assert(digits_val(s@, pos as int, j + 1) == 10 * (val as int) + d);
                lemma_digits_val_mono(s@, pos as int, j + 1, ge as int);
            }
            return None;
        }
        proof {
            assert(10 * (val as int) + d <= 0xffff_ffff) by (nonlinear_arith)
                requires
                    val as int <= (0xffff_ffffint - d) / 10,
                    0 <= d <= 9,
                    val >= 0,
            ;
        }
        val = val * 10 + d;
        j = j + 1;
    }
    Some(val)
}

/// Parses a revision number at a position.
pub fn parse_num_at(s: &[char], pos: usize) -> (r: PResult<Num>)
    requires
        pos <= s.len(),
    ensures
        match r {
            Ok((q, v)) => sp_num(s@, pos as int) == Some((q as int, v@)) && pos < q <= s.len(),
            Err(e) => {
                &&& sp_num(s@, pos as int) is None
                &&& e.wf()
                &&& e.trace@.len() == 2
                &&& e.trace@[0].pos == sp_num_fail_pos(s@, pos as int)
                &&& e.trace@[0].kind == ErrKind::Digit
                &&& e.trace@[1].pos == pos
                &&& e.trace@[1].kind matches ErrKind::Context(c) && c@ == "Num"@
            },
        },
{
    if pos == s.len() || !(0x30 <= s[pos] as u32 && s[pos] as u32 <= 0x39) {
        return Err(ParseError::new(pos, ErrKind::Digit).with_context(pos, "Num"));
    }
    let mut nums: Vec<u32> = Vec::new();
    let mut i = pos;
    loop
        invariant
            pos <= i < s.len(),
            is_digit_sp(s@[pos as int]),
            is_digit_sp(s@[i as int]),
            sp_num(s@, pos as int) == sp_num_rec(s@, i as int, nums@),
            sp_num_fail_pos(s@, pos as int) == sp_num_fail_pos(s@, i as int),
        decreases s@.len() - i,
    {
        let ghost nums0 = nums@;
        let ghost i0 = i as int;
        let ge = scan_digits(s, i);
        proof {
            lemma_run_end(s@, i as int, digit_pred());
        }
        assert(ge > i);
        match read_group(s, i, ge) {
            None => {
                assert(sp_num_rec(s@, i0, nums0) is None);
                return Err(ParseError::new(i, ErrKind::Digit).with_context(pos, "Num"));
            },
            Some(val) => {
                nums.push(val);
                assert(nums@ == nums0.push(val));
                if ge < s.len() && s[ge] == '.' && ge + 1 < s.len() && (0x30 <= s[ge + 1] as u32
                    && s[ge + 1] as u32 <= 0x39) {
                    assert(sp_num_rec(s@, i0, nums0) == sp_num_rec(s@, ge + 1, nums@));
                    i = ge + 1;
                } else {
                    assert(sp_num_rec(s@, i0, nums0) == Some((ge as int, nums@)));
                    return Ok((ge, Num { numbers: nums }));
                }
            },
        }
    }
}

/// The `num` rule as a clause payload.
pub struct NumParser;

impl crate::parsers::combinators::Payload for NumParser {
    type Out = Num;

    open spec fn sp(s: Seq<char>, i: int) -> Option<(int, Seq<u32>)> {
        sp_num(s, i)
    }

    fn parse(&self, s: &[char], pos: usize) -> (r: PResult<Num>) {
        parse_num_at(s, pos)
    }
}

/// Parses a revision number at the start of the input; returns the
/// remainder and the number.
pub fn parse_num<'a>(input: &'a str) -> (r: Result<(&'a str, Num), ParseError>)
    ensures
        match r {
            Ok((rem, v)) => {
                &&& sp_num(input@, 0) matches Some((e, n))
                &&& v@ == n
                &&& rem@ == input@.subrange(e, input@.len() as int)
            },
            Err(e) => {
                &&& sp_num(input@, 0) is None
                &&& e.wf()
                &&& e.trace@.len() == 2
                &&& e.trace@[0].pos == sp_num_fail_pos(input@, 0)
                &&& e.trace@[0].kind == ErrKind::Digit
                &&& e.trace@[1].pos == 0
                &&& e.trace@[1].kind matches ErrKind::Context(c) && c@ == "Num"@
            },
        },
{
    let cs = crate::parsers::str_to_chars(input);
    let n = cs.len();
    match parse_num_at(cs.as_slice(), 0) {
        Ok((e, v)) => {
            let rem = input.substring_char(e, n);
            Ok((rem, v))
        },
        Err(e) => Err(e),
    }
}

} // verus!
