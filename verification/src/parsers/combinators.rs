//! The four reusable clause shapes of the grammar, `keyword value* ;` and
//! its optional variants, parameterized by the payload parser between the
//! keyword and the terminating semicolon.

use vstd::prelude::*;
use vstd::string::StrSliceExecFns;

use crate::error::{ErrKind, ParseError};
use crate::parsers::chars::{run_end, skip_ws, ws_pred};
use crate::parsers::PResult;

verus! {

/// A parser usable as the payload of a clause: a specification of the
/// grammar it accepts, and an executable parser exact with respect to it.
pub trait Payload {
    type Out: View;

    /// The payload's grammar rule at a position: the end position and the
    /// abstract value on a match, nothing on a failure.
    spec fn sp(s: Seq<char>, i: int) -> Option<(int, <Self::Out as View>::V)>;

    /// Parses one payload value at a position.
    fn parse(&self, s: &[char], pos: usize) -> (r: PResult<Self::Out>)
        requires
            pos <= s.len(),
        ensures
            match r {
                Ok((q, v)) => Self::sp(s@, pos as int) == Some((q as int, v@)) && pos <= q
                    <= s.len(),
                Err(e) => Self::sp(s@, pos as int) is None && e.wf(),
            },
    ;
}

/// The fixed token `key` occurs at `i`.
pub open spec fn match_at(s: Seq<char>, i: int, key: Seq<char>) -> bool {
    i >= 0 && i + key.len() <= s.len() && s.subrange(i, i + key.len()) == key
}

/// The `keyword value ;` shape: whitespace, the keyword, whitespace, one
/// payload value, whitespace, a semicolon.
pub open spec fn sp_value<P: Payload>(s: Seq<char>, i: int, key: Seq<char>) -> Option<
    (int, <P::Out as View>::V),
> {
    let a = run_end(s, i, ws_pred());
    if !match_at(s, a, key) {
        None
    } else {
        let b = run_end(s, a + key.len(), ws_pred());
        match P::sp(s, b) {
            None => None,
            Some((q, v)) => {
                let c = run_end(s, q, ws_pred());
                if c < s.len() && s[c] == ';' {
                    Some((c + 1, v))
                } else {
                    None
                }
            },
        }
    }
}

/// The `keyword [value] ;` shape: as [`sp_value`], but the payload may be
/// absent, which consumes nothing.
pub open spec fn sp_value_opt<P: Payload>(s: Seq<char>, i: int, key: Seq<char>) -> Option<
    (int, Option<<P::Out as View>::V>),
> {
    let a = run_end(s, i, ws_pred());
    if !match_at(s, a, key) {
        None
    } else {
        let b = run_end(s, a + key.len(), ws_pred());
        match P::sp(s, b) {
            Some((q, v)) => {
                let c = run_end(s, q, ws_pred());
                if c < s.len() && s[c] == ';' {
                    Some((c + 1, Some(v)))
                } else {
                    None
                }
            },
            None => if b < s.len() && s[b] == ';' {
                Some((b + 1, None))
            } else {
                None
            },
        }
    }
}

/// The `[ keyword value ; ]` shape: the whole clause may be absent, in
/// which case nothing is consumed and nothing fails.
pub open spec fn sp_value_all_opt<P: Payload>(s: Seq<char>, i: int, key: Seq<char>) -> (
    int,
    Option<<P::Out as View>::V>,
) {
    let a = run_end(s, i, ws_pred());
    if !match_at(s, a, key) {
        (i, None)
    } else {
        let b = run_end(s, a + key.len(), ws_pred());
        match P::sp(s, b) {
            None => (i, None),
            Some((q, v)) => {
                let c = run_end(s, q, ws_pred());
                if c < s.len() && s[c] == ';' {
                    (c + 1, Some(v))
                } else {
                    (i, None)
                }
            },
        }
    }
}

/// The payload values after a keyword, each preceded by at least one
/// whitespace character, as many as the input carries.
pub open spec fn sp_many0_items<P: Payload>(s: Seq<char>, i: int) -> (int, Seq<
    <P::Out as View>::V,
>)
    decreases s.len() - i,
{
    let b = run_end(s, i, ws_pred());
    if b > i {
        match P::sp(s, b) {
            Some((q, v)) => if b <= q <= s.len() {
                let (e, rest) = sp_many0_items::<P>(s, q);
                (e, seq![v] + rest)
            } else {
                (i, Seq::empty())
            },
            None => (i, Seq::empty()),
        }
    } else {
        (i, Seq::empty())
    }
}

/// The `keyword value* ;` shape: whitespace, the keyword, zero or more
/// whitespace-preceded payload values, whitespace, a semicolon.
pub open spec fn sp_value_many0<P: Payload>(s: Seq<char>, i: int, key: Seq<char>) -> Option<
    (int, Seq<<P::Out as View>::V>),
> {
    let a = run_end(s, i, ws_pred());
    if !match_at(s, a, key) {
        None
    } else {
        let (e, items) = sp_many0_items::<P>(s, a + key.len());
        let c = run_end(s, e, ws_pred());
        if c < s.len() && s[c] == ';' {
            Some((c + 1, items))
        } else {
            None
        }
    }
}

/// A required clause reads the same from any position inside the
/// whitespace run before its keyword: the amount of separating
/// whitespace never changes the parsed value.
pub proof fn lemma_value_ws_start<P: Payload>(s: Seq<char>, i: int, j: int, key: Seq<char>)
    requires
        0 <= i <= j,
        j <= run_end(s, i, ws_pred()),
    ensures
        sp_value::<P>(s, i, key) == sp_value::<P>(s, j, key),
{
    crate::parsers::chars::lemma_run_end_within(s, i, j, ws_pred());
}

/// As [`lemma_value_ws_start`], for a clause with an optional payload.
pub proof fn lemma_value_opt_ws_start<P: Payload>(s: Seq<char>, i: int, j: int, key: Seq<char>)
    requires
        0 <= i <= j,
        j <= run_end(s, i, ws_pred()),
    ensures
        sp_value_opt::<P>(s, i, key) == sp_value_opt::<P>(s, j, key),
{
    crate::parsers::chars::lemma_run_end_within(s, i, j, ws_pred());
}

/// As [`lemma_value_ws_start`], for a repeated-value clause.  The wholly
/// optional clause shape has no such law: when absent it consumes
/// nothing, so its result names the position it was tried at.
pub proof fn lemma_value_many0_ws_start<P: Payload>(s: Seq<char>, i: int, j: int, key: Seq<char>)
    requires
        0 <= i <= j,
        j <= run_end(s, i, ws_pred()),
    ensures
        sp_value_many0::<P>(s, i, key) == sp_value_many0::<P>(s, j, key),
{
    crate::parsers::chars::lemma_run_end_within(s, i, j, ws_pred());
}

/// Checks whether the token `key` occurs at `pos`.
pub fn match_key(s: &[char], pos: usize, key: &[char]) -> (r: bool)
    requires
        pos <= s.len(),
    ensures
        r == match_at(s@, pos as int, key@),
{
    if s.len() - pos < key.len() {
        proof {
            assert(!match_at(s@, pos as int, key@));
        }
        return false;
    }
    let mut k: usize = 0;
    while k < key.len()
        invariant
            k <= key.len(),
            pos + key.len() <= s.len(),
            s@.subrange(pos as int, pos + k) =~= key@.subrange(0, k as int),
        decreases key.len() - k,
    {
        if s[pos + k] != key[k] {
            proof {
                if match_at(s@, pos as int, key@) {
                    assert(s@.subrange(pos as int, pos + key@.len())[k as int] == key@[k as int]);
                }
            }
            return false;
        }
        proof {
            assert(s@.subrange(pos as int, pos + (k + 1)) =~= s@.subrange(
                pos as int,
                pos + k,
            ).push(s@[pos + k]));
            assert(key@.subrange(0, k + 1) =~= key@.subrange(0, k as int).push(key@[k as int]));
        }
        k = k + 1;
    }
    proof {
        assert(s@.subrange(pos as int, pos + key@.len()) =~= key@.subrange(0, key@.len() as int));
        assert(key@.subrange(0, key@.len() as int) =~= key@);
    }
    true
}

/// Parses a required `keyword value ;` clause at a position.
pub fn parse_value_at<P: Payload>(s: &[char], pos: usize, ctx: &str, key: &str, p: &P) -> (r:
    PResult<P::Out>)
    requires
        pos <= s.len(),
    ensures
        match r {
            Ok((q, v)) => sp_value::<P>(s@, pos as int, key@) == Some((q as int, v@)) && pos <= q
                <= s.len(),
            Err(e) => {
                &&& sp_value::<P>(s@, pos as int, key@) is None
                &&& e.wf()
                &&& e.trace@.len() >= 2
                &&& e.trace@.last().pos == pos
                &&& e.trace@.last().kind matches ErrKind::Context(c) && c@ == ctx@
            },
        },
{
    let kc = crate::parsers::str_to_chars(key);
    let a = skip_ws(s, pos);
    if !match_key(s, a, kc.as_slice()) {
        return Err(ParseError::new(a, ErrKind::Tag).with_context(pos, ctx));
    }
    assert(a + kc@.len() <= s.len());
    let b = skip_ws(s, a + kc.len());
    match p.parse(s, b) {
        Err(e) => Err(e.with_context(pos, ctx)),
        Ok((q, v)) => {
            let c = skip_ws(s, q);
            if c < s.len() && s[c] == ';' {
                Ok((c + 1, v))
            } else {
                Err(ParseError::new(c, ErrKind::Tag).with_context(pos, ctx))
            }
        },
    }
}

/// Parses a `keyword [value] ;` clause at a position: the clause is
/// required, its payload optional.
pub fn parse_value_opt_at<P: Payload>(s: &[char], pos: usize, ctx: &str, key: &str, p: &P) -> (r:
    PResult<Option<P::Out>>)
    requires
        pos <= s.len(),
    ensures
        match r {
            Ok((q, ov)) => sp_value_opt::<P>(s@, pos as int, key@) == Some(
                (
                    q as int,
                    match ov {
                        Some(v) => Some(v@),
                        None => None,
                    },
                ),
            ) && pos <= q <= s.len(),
            Err(e) => {
                &&& sp_value_opt::<P>(s@, pos as int, key@) is None
                &&& e.wf()
                &&& e.trace@.len() >= 2
                &&& e.trace@.last().pos == pos
                &&& e.trace@.last().kind matches ErrKind::Context(c) && c@ == ctx@
            },
        },
{
    let kc = crate::parsers::str_to_chars(key);
    let a = skip_ws(s, pos);
    if !match_key(s, a, kc.as_slice()) {
        return Err(ParseError::new(a, ErrKind::Tag).with_context(pos, ctx));
    }
    assert(a + kc@.len() <= s.len());
    let b = skip_ws(s, a + kc.len());
    match p.parse(s, b) {
        Ok((q, v)) => {
            let c = skip_ws(s, q);
            if c < s.len() && s[c] == ';' {
                Ok((c + 1, Some(v)))
            } else {
                Err(ParseError::new(c, ErrKind::Tag).with_context(pos, ctx))
            }
        },
        Err(_) => {
            if b < s.len() && s[b] == ';' {
                Ok((b + 1, None))
            } else {
                Err(ParseError::new(b, ErrKind::Tag).with_context(pos, ctx))
            }
        },
    }
}

/// Parses an optional whole `[ keyword value ; ]` clause at a position;
/// when the clause is absent or does not complete, nothing is consumed.
pub fn parse_value_all_opt_at<P: Payload>(s: &[char], pos: usize, ctx: &str, key: &str, p: &P) -> (
    r: (usize, Option<P::Out>))
    requires
        pos <= s.len(),
    ensures
        sp_value_all_opt::<P>(s@, pos as int, key@) == (
            r.0 as int,
            match r.1 {
                Some(v) => Some(v@),
                None => None,
            },
        ),
        pos <= r.0 <= s.len(),
{
    let kc = crate::parsers::str_to_chars(key);
    let a = skip_ws(s, pos);
    if !match_key(s, a, kc.as_slice()) {
        return (pos, None);
    }
    assert(a + kc@.len() <= s.len());
    let b = skip_ws(s, a + kc.len());
    match p.parse(s, b) {
        Err(_) => (pos, None),
        Ok((q, v)) => {
            let c = skip_ws(s, q);
            if c < s.len() && s[c] == ';' {
                (c + 1, Some(v))
            } else {
                (pos, None)
            }
        },
    }
}

/// Parses a `keyword value* ;` clause at a position.
pub fn parse_value_many0_at<P: Payload>(s: &[char], pos: usize, ctx: &str, key: &str, p: &P) -> (r:
    PResult<Vec<P::Out>>)
    requires
        pos <= s.len(),
    ensures
        match r {
            Ok((q, vs)) => sp_value_many0::<P>(s@, pos as int, key@) == Some(
                (q as int, crate::views_of(vs@)),
            ) && pos <= q <= s.len(),
            Err(e) => {
                &&& sp_value_many0::<P>(s@, pos as int, key@) is None
                &&& e.wf()
                &&& e.trace@.len() >= 2
                &&& e.trace@.last().pos == pos
                &&& e.trace@.last().kind matches ErrKind::Context(c) && c@ == ctx@
            },
        },
{
    let kc = crate::parsers::str_to_chars(key);
    let a = skip_ws(s, pos);
    if !match_key(s, a, kc.as_slice()) {
        return Err(ParseError::new(a, ErrKind::Tag).with_context(pos, ctx));
    }
    assert(a + kc@.len() <= s.len());
    let start = a + kc.len();
    let mut items: Vec<P::Out> = Vec::new();
    let mut cur = start;
    loop
        invariant
            pos <= s.len(),
            start <= cur <= s.len(),
            sp_many0_items::<P>(s@, start as int) == {
                let (e, rest) = sp_many0_items::<P>(s@, cur as int);
                (e, crate::views_of(items@) + rest)
            },
        ensures
            cur <= s.len(),
            sp_many0_items::<P>(s@, start as int) == (
                cur as int,
                crate::views_of(items@),
            ),
        decreases s@.len() - cur,
    {
        let ghost m0 = crate::views_of(items@);
        let b = skip_ws(s, cur);
        if b == cur {
            proof {
                assert(m0 + Seq::<<P::Out as View>::V>::empty() =~= m0);
            }
            break;
        }
        match p.parse(s, b) {
            Err(_) => {
                proof {
                    assert(m0 + Seq::<<P::Out as View>::V>::empty() =~= m0);
                }
                break;
            },
            Ok((q, v)) => {
                let ghost vv = v@;
                items.push(v);
                proof {
                    assert(crate::views_of(items@) =~= m0.push(vv));
                    let (e3, rest) = sp_many0_items::<P>(s@, q as int);
                    assert(m0 + (seq![vv] + rest) =~= m0.push(vv) + rest);
                }
                cur = q;
            },
        }
    }
    let c = skip_ws(s, cur);
    if c < s.len() && s[c] == ';' {
        Ok((c + 1, items))
    } else {
        Err(ParseError::new(c, ErrKind::Tag).with_context(pos, ctx))
    }
}

/// Parses a required `keyword value ;` clause at the start of the input;
/// returns the remainder and the payload value.
pub fn parse_value<'a, P: Payload>(input: &'a str, ctx: &str, key: &str, p: &P) -> (r: Result<
    (&'a str, P::Out),
    ParseError,
>)
    ensures
        match r {
            Ok((rem, v)) => {
                &&& sp_value::<P>(input@, 0, key@) matches Some((e, t))
                &&& v@ == t
                &&& rem@ == input@.subrange(e, input@.len() as int)
            },
            Err(e) => {
                &&& sp_value::<P>(input@, 0, key@) is None
                &&& e.wf()
                &&& e.trace@.len() >= 2
                &&& e.trace@.last().pos == 0
                &&& e.trace@.last().kind matches ErrKind::Context(c) && c@ == ctx@
            },
        },
{
    let cs = crate::parsers::str_to_chars(input);
    let n = cs.len();
    match parse_value_at(cs.as_slice(), 0, ctx, key, p) {
        Ok((e, v)) => {
            let rem = input.substring_char(e, n);
            Ok((rem, v))
        },
        Err(e) => Err(e),
    }
}

/// Parses a `keyword [value] ;` clause at the start of the input.
pub fn parse_value_opt<'a, P: Payload>(input: &'a str, ctx: &str, key: &str, p: &P) -> (r: Result<
    (&'a str, Option<P::Out>),
    ParseError,
>)
    ensures
        match r {
            Ok((rem, ov)) => {
                &&& sp_value_opt::<P>(input@, 0, key@) matches Some((e, t))
                &&& (match ov {
                    Some(v) => Some(v@),
                    None => None,
                }) == t
                &&& rem@ == input@.subrange(e, input@.len() as int)
            },
            Err(e) => {
                &&& sp_value_opt::<P>(input@, 0, key@) is None
                &&& e.wf()
                &&& e.trace@.len() >= 2
                &&& e.trace@.last().pos == 0
                &&& e.trace@.last().kind matches ErrKind::Context(c) && c@ == ctx@
            },
        },
{
    let cs = crate::parsers::str_to_chars(input);
    let n = cs.len();
    match parse_value_opt_at(cs.as_slice(), 0, ctx, key, p) {
        Ok((e, v)) => {
            let rem = input.substring_char(e, n);
            Ok((rem, v))
        },
        Err(e) => Err(e),
    }
}

/// Parses an optional whole `[ keyword value ; ]` clause at the start of
/// the input; an absent clause consumes nothing and yields nothing.
pub fn parse_value_all_opt<'a, P: Payload>(input: &'a str, ctx: &str, key: &str, p: &P) -> (r: (
    &'a str,
    Option<P::Out>,
))
    ensures
        ({
            let (e, t) = sp_value_all_opt::<P>(input@, 0, key@);
            &&& (match r.1 {
                Some(v) => Some(v@),
                None => None,
            }) == t
            &&& r.0@ == input@.subrange(e, input@.len() as int)
        }),
{
    let cs = crate::parsers::str_to_chars(input);
    let n = cs.len();
    let (e, v) = parse_value_all_opt_at(cs.as_slice(), 0, ctx, key, p);
    let rem = input.substring_char(e, n);
    (rem, v)
}

/// Parses a `keyword value* ;` clause at the start of the input.
pub fn parse_value_many0<'a, P: Payload>(input: &'a str, ctx: &str, key: &str, p: &P) -> (r:
    Result<(&'a str, Vec<P::Out>), ParseError>)
    ensures
        match r {
            Ok((rem, vs)) => {
                &&& sp_value_many0::<P>(input@, 0, key@) matches Some((e, t))
                &&& crate::views_of(vs@) == t
                &&& rem@ == input@.subrange(e, input@.len() as int)
            },
            Err(e) => {
                &&& sp_value_many0::<P>(input@, 0, key@) is None
                &&& e.wf()
                &&& e.trace@.len() >= 2
                &&& e.trace@.last().pos == 0
                &&& e.trace@.last().kind matches ErrKind::Context(c) && c@ == ctx@
            },
        },
{
    let cs = crate::parsers::str_to_chars(input);
    let n = cs.len();
    match parse_value_many0_at(cs.as_slice(), 0, ctx, key, p) {
        Ok((e, vs)) => {
            let rem = input.substring_char(e, n);
            Ok((rem, vs))
        },
        Err(e) => Err(e),
    }
}

} // verus!
