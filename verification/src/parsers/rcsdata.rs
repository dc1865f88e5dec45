//! The whole document: the administrative header, the delta headers, the
//! description, the delta bodies, a final line terminator, and the merge
//! step that pairs each body with its header.

use vstd::prelude::*;
use vstd::string::StrSliceExecFns;

use crate::error::{ErrKind, MergeError, ParseError, RcsError};
use crate::num::{lemma_num_lt_connected, lemma_num_lt_trans, num_eq, num_lt, num_lt_sp, Num};
use crate::parsers::admin::{parse_admin_at, sp_admin};
use crate::parsers::chars::{run_end, skip_ws, ws_pred};
use crate::parsers::combinators::{match_at, match_key};
use crate::parsers::delta::{parse_delta_at, sp_delta};
use crate::parsers::deltatext::{
    parse_deltatext_at, parse_deltatext_head_at, sp_deltatext, sp_deltatext_head,
};
use crate::parsers::string::{parse_string_at, sp_string};
use crate::parsers::PResult;
use crate::{views_of, Delta, DeltaSp, DeltaText, DeltaTextSp, RcsData, RcsDataSp, Text};

verus! {

/// The delta headers of a document, as many as the input carries.
pub open spec fn sp_delta_list(s: Seq<char>, i: int) -> (int, Seq<DeltaSp>)
    decreases s.len() - i,
{
    match sp_delta(s, i) {
        Some((q, d)) => if i < q <= s.len() {
            let (e, rest) = sp_delta_list(s, q);
            (e, seq![d] + rest)
        } else {
            (i, Seq::empty())
        },
        None => (i, Seq::empty()),
    }
}

/// The `desc` clause: whitespace, the keyword, whitespace, a string.
pub open spec fn sp_desc(s: Seq<char>, i: int) -> Option<(int, Seq<char>)> {
    let w1 = run_end(s, i, ws_pred());
    if w1 == i || !match_at(s, w1, "desc"@) {
        None
    } else {
        let k = w1 + "desc"@.len();
        let w2 = run_end(s, k, ws_pred());
        if w2 == k {
            None
        } else {
            sp_string(s, w2)
        }
    }
}

/// The ordinary `deltatext` blocks after the head block, as many as the
/// input carries, each preceded by optional whitespace.
pub open spec fn sp_dt_list(s: Seq<char>, i: int) -> (int, Seq<DeltaTextSp>)
    decreases s.len() - i,
{
    let b = run_end(s, i, ws_pred());
    match sp_deltatext(s, b) {
        Some((q, dt)) => if i < q <= s.len() {
            let (e, rest) = sp_dt_list(s, q);
            (e, seq![dt] + rest)
        } else {
            (i, Seq::empty())
        },
        None => (i, Seq::empty()),
    }
}

/// The delta bodies of a document: one head-form block, then zero or
/// more ordinary blocks.
pub open spec fn sp_deltatexts(s: Seq<char>, i: int) -> Option<(int, Seq<DeltaTextSp>)> {
    let a = run_end(s, i, ws_pred());
    match sp_deltatext_head(s, a) {
        None => None,
        Some((p1, h)) => {
            let (e, rest) = sp_dt_list(s, p1);
            Some((e, seq![h] + rest))
        },
    }
}

/// Parses the delta headers at a position; never fails.
pub fn parse_deltas_at(s: &[char], pos: usize) -> (r: (usize, Vec<Delta>))
    requires
        pos <= s.len(),
    ensures
        sp_delta_list(s@, pos as int) == (r.0 as int, views_of(r.1@)),
        pos <= r.0 <= s.len(),
{
    let mut ds: Vec<Delta> = Vec::new();
    let mut cur = pos;
    loop
        invariant
            pos <= cur <= s.len(),
            sp_delta_list(s@, pos as int) == {
                let (e, rest) = sp_delta_list(s@, cur as int);
                (e, views_of(ds@) + rest)
            },
        ensures
            cur <= s.len(),
            pos <= cur,
            sp_delta_list(s@, pos as int) == (cur as int, views_of(ds@)),
        decreases s@.len() - cur,
    {
        let ghost m0 = views_of(ds@);
        match parse_delta_at(s, cur) {
            Err(_) => {
                proof {
                    assert(m0 + Seq::<DeltaSp>::empty() =~= m0);
                }
                break;
            },
            Ok((q, d)) => {
                let ghost dv = d@;
                ds.push(d);
                proof {
                    assert(views_of(ds@) =~= m0.push(dv));
                    let (e3, rest) = sp_delta_list(s@, q as int);
                    assert(m0 + (seq![dv] + rest) =~= m0.push(dv) + rest);
                }
                cur = q;
            },
        }
    }
    (cur, ds)
}

/// Parses the delta headers at the start of the input; returns the
/// remainder and the headers, in input order.
pub fn parse_deltas<'a>(input: &'a str) -> (r: (&'a str, Vec<Delta>))
    ensures
        ({
            let (e, ds) = sp_delta_list(input@, 0);
            views_of(r.1@) == ds && r.0@ == input@.subrange(e, input@.len() as int)
        }),
{
    let cs = crate::parsers::str_to_chars(input);
    let n = cs.len();
    let (e, ds) = parse_deltas_at(cs.as_slice(), 0);
    let rem = input.substring_char(e, n);
    (rem, ds)
}

/// Parses the `desc` clause at a position.
pub fn parse_desc_at(s: &[char], pos: usize) -> (r: PResult<String>)
    requires
        pos <= s.len(),
    ensures
        match r {
            Ok((q, v)) => sp_desc(s@, pos as int) == Some((q as int, v@)) && pos <= q <= s.len(),
            Err(e) => {
                &&& sp_desc(s@, pos as int) is None
                &&& e.wf()
                &&& e.trace@.len() >= 2
                &&& e.trace@.last().pos == pos
                &&& e.trace@.last().kind matches ErrKind::Context(c) && c@ == "desc"@
            },
        },
{
    let w1 = skip_ws(s, pos);
    if w1 == pos {
        return Err(ParseError::new(w1, ErrKind::MultiSpace).with_context(pos, "desc"));
    }
    let kc = crate::parsers::str_to_chars("desc");
    if !match_key(s, w1, kc.as_slice()) {
        return Err(ParseError::new(w1, ErrKind::Tag).with_context(pos, "desc"));
    }
    assert(w1 + kc@.len() <= s.len());
    let k = w1 + kc.len();
    let w2 = skip_ws(s, k);
    if w2 == k {
        return Err(ParseError::new(w2, ErrKind::MultiSpace).with_context(pos, "desc"));
    }
    match parse_string_at(s, w2) {
        Err(e) => Err(e.with_context(pos, "desc")),
        Ok(o) => Ok(o),
    }
}

/// Parses the `desc` clause at the start of the input; returns the
/// remainder and the description text.
pub fn parse_desc<'a>(input: &'a str) -> (r: Result<(&'a str, String), ParseError>)
    ensures
        match r {
            Ok((rem, v)) => {
                &&& sp_desc(input@, 0) matches Some((e, t))
                &&& v@ == t
                &&& rem@ == input@.subrange(e, input@.len() as int)
            },
            Err(e) => {
                &&& sp_desc(input@, 0) is None
                &&& e.wf()
                &&& e.trace@.len() >= 2
                &&& e.trace@.last().pos == 0
                &&& e.trace@.last().kind matches ErrKind::Context(c) && c@ == "desc"@
            },
        },
{
    let cs = crate::parsers::str_to_chars(input);
    let n = cs.len();
    match parse_desc_at(cs.as_slice(), 0) {
        Ok((e, v)) => {
            let rem = input.substring_char(e, n);
            Ok((rem, v))
        },
        Err(e) => Err(e),
    }
}

/// Parses the delta bodies at a position: the head block, then the
/// ordinary blocks.
pub fn parse_deltatexts_at(s: &[char], pos: usize) -> (r: PResult<Vec<DeltaText>>)
    requires
        pos <= s.len(),
    ensures
        match r {
            Ok((q, vs)) => sp_deltatexts(s@, pos as int) == Some((q as int, views_of(vs@))) && pos
                <= q <= s.len(),
            Err(e) => {
                &&& sp_deltatexts(s@, pos as int) is None
                &&& e.wf()
                &&& e.trace@.len() >= 2
                &&& e.trace@.last().pos == pos
                &&& e.trace@.last().kind matches ErrKind::Context(c) && c@ == "deltatexts"@
            },
        },
{
    let a = skip_ws(s, pos);
    let head = match parse_deltatext_head_at(s, a) {
        Err(e) => {
            return Err(e.with_context(pos, "deltatexts"));
        },
        Ok(o) => o,
    };
    let mut ts: Vec<DeltaText> = Vec::new();
    let ghost hv = head.1@;
    ts.push(head.1);
    let mut cur = head.0;
    proof {
        assert(views_of(ts@) =~= seq![hv]);
    }
    loop
        invariant
            pos <= cur <= s.len(),
            ts@.len() >= 1,
            sp_deltatexts(s@, pos as int) == {
                let (e, rest) = sp_dt_list(s@, cur as int);
                Some((e, views_of(ts@) + rest))
            },
        ensures
            pos <= cur <= s.len(),
            sp_deltatexts(s@, pos as int) == Some((cur as int, views_of(ts@))),
        decreases s@.len() - cur,
    {
        let ghost m0 = views_of(ts@);
        let b = skip_ws(s, cur);
        match parse_deltatext_at(s, b) {
            Err(_) => {
                proof {
                    assert(m0 + Seq::<DeltaTextSp>::empty() =~= m0);
                }
                break;
            },
            Ok((q, dt)) => {
                let ghost dv = dt@;
                ts.push(dt);
                proof {
                    assert(views_of(ts@) =~= m0.push(dv));
                    let (e3, rest) = sp_dt_list(s@, q as int);
                    assert(m0 + (seq![dv] + rest) =~= m0.push(dv) + rest);
                }
                cur = q;
            },
        }
    }
    Ok((cur, ts))
}

/// Parses the delta bodies at the start of the input; returns the
/// remainder and the blocks, the head block first.
pub fn parse_deltatexts<'a>(input: &'a str) -> (r: Result<(&'a str, Vec<DeltaText>), ParseError>)
    ensures
        match r {
            Ok((rem, vs)) => {
                &&& sp_deltatexts(input@, 0) matches Some((e, t))
                &&& views_of(vs@) == t
                &&& rem@ == input@.subrange(e, input@.len() as int)
            },
            Err(e) => {
                &&& sp_deltatexts(input@, 0) is None
                &&& e.wf()
                &&& e.trace@.len() >= 2
                &&& e.trace@.last().pos == 0
                &&& e.trace@.last().kind matches ErrKind::Context(c) && c@ == "deltatexts"@
            },
        },
{
    let cs = crate::parsers::str_to_chars(input);
    let n = cs.len();
    match parse_deltatexts_at(cs.as_slice(), 0) {
        Ok((e, vs)) => {
            let rem = input.substring_char(e, n);
            Ok((rem, vs))
        },
        Err(e) => Err(e),
    }
}

/// Some delta header carries the given revision number.
pub open spec fn has_num(hs: Seq<DeltaSp>, n: Seq<u32>) -> bool {
    exists|j: int| 0 <= j < hs.len() && hs[j].num == n
}

/// Some delta body carries the given revision number.
pub open spec fn text_has_num(ts: Seq<DeltaTextSp>, n: Seq<u32>) -> bool {
    exists|i: int| 0 <= i < ts.len() && ts[i].num == n
}

/// Two delta headers share a revision number.
pub open spec fn dup_nums(hs: Seq<DeltaSp>) -> bool {
    exists|i: int, j: int| 0 <= i < j < hs.len() && hs[i].num == hs[j].num
}

/// Some delta body names a revision with no header.
pub open spec fn unmatched_text(hs: Seq<DeltaSp>, ts: Seq<DeltaTextSp>) -> bool {
    exists|i: int| 0 <= i < ts.len() && !has_num(hs, ts[i].num)
}

/// Some delta header has no body.
pub open spec fn unmatched_delta(hs: Seq<DeltaSp>, ts: Seq<DeltaTextSp>) -> bool {
    exists|j: int| 0 <= j < hs.len() && !text_has_num(ts, hs[j].num)
}

/// The three conditions on which pairing headers with bodies fails.
pub open spec fn merge_conflict(hs: Seq<DeltaSp>, ts: Seq<DeltaTextSp>) -> bool {
    dup_nums(hs) || unmatched_text(hs, ts) || unmatched_delta(hs, ts)
}

/// Index of the last body with the given revision number, or -1.
pub open spec fn last_text_idx(ts: Seq<DeltaTextSp>, n: Seq<u32>) -> int
    decreases ts.len(),
{
    if ts.len() == 0 {
        -1
    } else if ts.last().num == n {
        ts.len() - 1
    } else {
        last_text_idx(ts.drop_last(), n)
    }
}

/// Position and match of the last-body index.
pub proof fn lemma_last_text_idx(ts: Seq<DeltaTextSp>, n: Seq<u32>)
    ensures
        -1 <= last_text_idx(ts, n) < ts.len(),
        last_text_idx(ts, n) >= 0 ==> ts[last_text_idx(ts, n)].num == n,
        (last_text_idx(ts, n) >= 0) == text_has_num(ts, n),
    decreases ts.len(),
{
    if ts.len() > 0 {
        lemma_last_text_idx(ts.drop_last(), n);
        if ts.last().num != n {
            let li = last_text_idx(ts.drop_last(), n);
            if li >= 0 {
                assert(ts.drop_last()[li] == ts[li]);
            }
            if text_has_num(ts, n) {
                let i = choose|i: int| 0 <= i < ts.len() && ts[i].num == n;
                assert(i < ts.len() - 1);
                assert(ts.drop_last()[i] == ts[i]);
                assert(text_has_num(ts.drop_last(), n));
            }
        }
    }
}

/// A header with the log and body of its last matching delta body copied
/// in, or untouched when no body matches.
pub open spec fn merge_fields(h: DeltaSp, ts: Seq<DeltaTextSp>) -> DeltaSp {
    let li = last_text_idx(ts, h.num);
    if li >= 0 {
        DeltaSp { log: ts[li].log, text: ts[li].text, ..h }
    } else {
        h
    }
}

/// The delta is one of the headers, completed from the bodies.
pub open spec fn delta_merged(hs: Seq<DeltaSp>, ts: Seq<DeltaTextSp>, d: DeltaSp) -> bool {
    exists|j: int| 0 <= j < hs.len() && hs[j].num == d.num && d == merge_fields(hs[j], ts)
}

/// A delta body whose revision number no header carries always makes the
/// merge conflict: [`build_deltas`] then reports a merge error rather
/// than completing.
pub proof fn lemma_unmatched_text_conflicts(hs: Seq<DeltaSp>, ts: Seq<DeltaTextSp>, i: int)
    requires
        0 <= i < ts.len(),
        !has_num(hs, ts[i].num),
    ensures
        merge_conflict(hs, ts),
{
}

/// Inserting into a sequence inserts its view.
pub proof fn lemma_views_of_insert<T: View>(v: Seq<T>, k: int, x: T)
    requires
        0 <= k <= v.len(),
    ensures
        views_of(v.insert(k, x)) =~= views_of(v).insert(k, x@),
{
    assert forall|i: int| 0 <= i < v.len() + 1 implies views_of(v.insert(k, x))[i] == views_of(
        v,
    ).insert(k, x@)[i] by {
        if i < k {
            assert(v.insert(k, x)[i] == v[i]);
        } else if i == k {
            assert(v.insert(k, x)[i] == x);
        } else {
            assert(v.insert(k, x)[i] == v[i - 1]);
        }
    }
}

/// Removing from a sequence removes from its view.
pub proof fn lemma_views_of_remove<T: View>(v: Seq<T>, k: int)
    requires
        0 <= k < v.len(),
    ensures
        views_of(v.remove(k)) =~= views_of(v).remove(k),
{
    assert forall|i: int| 0 <= i < v.len() - 1 implies views_of(v.remove(k))[i] == views_of(
        v,
    ).remove(k)[i] by {
        if i < k {
            assert(v.remove(k)[i] == v[i]);
        } else {
            assert(v.remove(k)[i] == v[i + 1]);
        }
    }
}

/// Copies a string.
fn clone_string(s: &String) -> (r: String)
    ensures
        r@ == s@,
{
    s.clone()
}

/// Copies a revision number.
fn clone_num(n: &Num) -> (r: Num)
    ensures
        r@ == n@,
{
    let mut numbers: Vec<u32> = Vec::new();
    let mut i: usize = 0;
    while i < n.numbers.len()
        invariant
            i <= n@.len(),
            numbers@ == n@.subrange(0, i as int),
        decreases n@.len() - i,
    {
        numbers.push(n.numbers[i]);
        proof {
            assert(n@.subrange(0, i + 1) =~= n@.subrange(0, i as int).push(n@[i as int]));
        }
        i = i + 1;
    }
    proof {
        assert(n@.subrange(0, n@.len() as int) =~= n@);
    }
    Num { numbers }
}

/// Copies a vector of strings.
fn clone_string_vec(v: &Vec<String>) -> (r: Vec<String>)
    ensures
        views_of(r@) == views_of(v@),
{
    let mut out: Vec<String> = Vec::new();
    let mut i: usize = 0;
    while i < v.len()
        invariant
            i <= v@.len(),
            out@.len() == i,
            forall|j: int| 0 <= j < i ==> (#[trigger] out@[j])@ == v@[j]@,
        decreases v@.len() - i,
    {
        out.push(clone_string(&v[i]));
        i = i + 1;
    }
    proof {
        assert(views_of(out@) =~= views_of(v@));
    }
    out
}

/// Copies one diff command.
fn clone_diff_command(c: &crate::DiffCommand) -> (r: crate::DiffCommand)
    ensures
        r@ == c@,
{
    match c {
        crate::DiffCommand::Add(p, lines) => crate::DiffCommand::Add(*p, clone_string_vec(lines)),
        crate::DiffCommand::Delete(p, n) => crate::DiffCommand::Delete(*p, *n),
    }
}

/// Copies a vector of diff commands.
fn clone_diff_vec(v: &Vec<crate::DiffCommand>) -> (r: Vec<crate::DiffCommand>)
    ensures
        views_of(r@) == views_of(v@),
{
    let mut out: Vec<crate::DiffCommand> = Vec::new();
    let mut i: usize = 0;
    while i < v.len()
        invariant
            i <= v@.len(),
            out@.len() == i,
            forall|j: int| 0 <= j < i ==> (#[trigger] out@[j])@ == v@[j]@,
        decreases v@.len() - i,
    {
        out.push(clone_diff_command(&v[i]));
        i = i + 1;
    }
    proof {
        assert(views_of(out@) =~= views_of(v@));
    }
    out
}

/// Copies a revision body.
fn clone_text(t: &Text) -> (r: Text)
    ensures
        r@ == t@,
{
    match t {
        Text::Head(s) => Text::Head(clone_string(s)),
        Text::Diff(cmds) => Text::Diff(clone_diff_vec(cmds)),
    }
}

/// Copies a vector of revision numbers.
fn clone_num_vec(v: &Vec<Num>) -> (r: Vec<Num>)
    ensures
        views_of(r@) == views_of(v@),
{
    let mut out: Vec<Num> = Vec::new();
    let mut i: usize = 0;
    while i < v.len()
        invariant
            i <= v@.len(),
            out@.len() == i,
            forall|j: int| 0 <= j < i ==> (#[trigger] out@[j])@ == v@[j]@,
        decreases v@.len() - i,
    {
        out.push(clone_num(&v[i]));
        i = i + 1;
    }
    proof {
        assert(views_of(out@) =~= views_of(v@));
    }
    out
}

/// Copies an optional string.
fn clone_opt_string(o: &Option<String>) -> (r: Option<String>)
    ensures
        (match r {
            Some(s) => Some(s@),
            None => None,
        }) == (match *o {
            Some(ref s) => Some(s@),
            None => None::<Seq<char>>,
        }),
{
    match o {
        Some(s) => Some(clone_string(s)),
        None => None,
    }
}

/// Copies an optional revision number.
fn clone_opt_num(o: &Option<Num>) -> (r: Option<Num>)
    ensures
        (match r {
            Some(n) => Some(n@),
            None => None,
        }) == (match *o {
            Some(ref n) => Some(n@),
            None => None::<Seq<u32>>,
        }),
{
    match o {
        Some(n) => Some(clone_num(n)),
        None => None,
    }
}

/// Copies a whole delta record.
fn clone_delta(d: &Delta) -> (r: Delta)
    ensures
        r@ == d@,
{
    Delta {
        num: clone_num(&d.num),
        date: clone_num(&d.date),
        author: clone_string(&d.author),
        state: clone_opt_string(&d.state),
        branches: clone_num_vec(&d.branches),
        next: clone_opt_num(&d.next),
        commitid: clone_opt_string(&d.commitid),
        log: clone_string(&d.log),
        text: clone_text(&d.text),
    }
}

/// Finds the slot of a revision number in a sorted delta vector: the
/// position of its delta when present, else its insertion position.
fn find_slot(res: &Vec<Delta>, n: &Num) -> (r: (usize, bool))
    requires
        crate::deltas_sorted(views_of(res@)),
    ensures
        r.0 <= res@.len(),
        forall|j: int| 0 <= j < r.0 ==> num_lt_sp(#[trigger] views_of(res@)[j].num, n@),
        r.1 ==> r.0 < res@.len() && views_of(res@)[r.0 as int].num == n@,
        !r.1 ==> !has_num(views_of(res@), n@),
        !r.1 && r.0 < res@.len() ==> num_lt_sp(n@, views_of(res@)[r.0 as int].num),
{
    let ghost rv = views_of(res@);
    let mut k: usize = 0;
    loop
        invariant
            k <= res@.len(),
            rv == views_of(res@),
            crate::deltas_sorted(rv),
            forall|j: int| 0 <= j < k ==> num_lt_sp(#[trigger] rv[j].num, n@),
        decreases res@.len() - k,
    {
        if k == res.len() {
            proof {
                assert forall|j: int| 0 <= j < rv.len() implies rv[j].num != n@ by {
                    lemma_num_lt_connected(rv[j].num, n@);
                }
            }
            return (k, false);
        }
        if num_lt(&res[k].num, n) {
            k = k + 1;
        } else if num_eq(&res[k].num, n) {
            return (k, true);
        } else {
            proof {
                lemma_num_lt_connected(rv[k as int].num, n@);
                assert(num_lt_sp(n@, rv[k as int].num));
                assert forall|j: int| 0 <= j < rv.len() implies rv[j].num != n@ by {
                    if j < k {
                        lemma_num_lt_connected(rv[j].num, n@);
                    } else if j == k {
                    } else {
                        lemma_num_lt_trans(n@, rv[k as int].num, rv[j].num);
                        lemma_num_lt_connected(n@, rv[j].num);
                    }
                }
            }
            return (k, false);
        }
    }
}

/// Checks whether any delta body carries the given revision number.
fn text_with_num_exists(texts: &Vec<DeltaText>, n: &Num) -> (r: bool)
    ensures
        r == text_has_num(views_of(texts@), n@),
{
    let mut i: usize = 0;
    while i < texts.len()
        invariant
            i <= texts@.len(),
            forall|j: int| 0 <= j < i ==> (#[trigger] views_of(texts@)[j]).num != n@,
        decreases texts@.len() - i,
    {
        if num_eq(&texts[i].num, n) {
            assert(views_of(texts@)[i as int].num == n@);
            return true;
        }
        i = i + 1;
    }
    false
}

/// Pairs the delta headers with the delta bodies: the result holds one
/// delta per revision number, sorted by the revision-number order, each
/// carrying the log and body of its last matching `deltatext`.  It fails
/// exactly when two headers share a number, a body has no header, or a
/// header has no body.
pub fn build_deltas(deltas: Vec<Delta>, texts: Vec<DeltaText>) -> (r: Result<
    Vec<Delta>,
    MergeError,
>)
    ensures
        match r {
            Ok(res) => {
                &&& !merge_conflict(views_of(deltas@), views_of(texts@))
                &&& res@.len() == deltas@.len()
                &&& crate::deltas_sorted(views_of(res@))
                &&& forall|n: Seq<u32>|
                    has_num(views_of(res@), n) == has_num(views_of(deltas@), n)
                &&& forall|k: int|
                    0 <= k < res@.len() ==> delta_merged(
                        views_of(deltas@),
                        views_of(texts@),
                        #[trigger] views_of(res@)[k],
                    )
            },
            Err(m) => {
                &&& merge_conflict(views_of(deltas@), views_of(texts@))
                &&& (m matches MergeError::DuplicateDelta(n) ==> exists|i: int, j: int|
                    0 <= i < j < views_of(deltas@).len() && (#[trigger] views_of(deltas@)[i]).num
                        == n@ && (#[trigger] views_of(deltas@)[j]).num == n@)
                &&& (m matches MergeError::MissingDelta(n) ==> text_has_num(views_of(texts@), n@)
                    && !has_num(views_of(deltas@), n@))
                &&& (m matches MergeError::MissingDeltaText(n) ==> has_num(
                    views_of(deltas@),
                    n@,
                ) && !text_has_num(views_of(texts@), n@))
            },
        },
{
    let ghost hs = views_of(deltas@);
    let ghost ts = views_of(texts@);
    let mut res: Vec<Delta> = Vec::new();
    let mut h: usize = 0;
    proof {
        assert(hs.subrange(0, 0) =~= Seq::<DeltaSp>::empty());
    }
    while h < deltas.len()
        invariant
            h <= hs.len(),
            hs == views_of(deltas@),
            res@.len() == h,
            crate::deltas_sorted(views_of(res@)),
            forall|n: Seq<u32>| has_num(views_of(res@), n) == has_num(hs.subrange(0, h as int), n),
            forall|k: int|
                0 <= k < res@.len() ==> exists|j: int|
                    0 <= j < h && #[trigger] views_of(res@)[k] == hs[j],
            forall|j1: int, j2: int|
                0 <= j1 < j2 < h ==> (#[trigger] hs[j1]).num != (#[trigger] hs[j2]).num,
        decreases hs.len() - h,
    {
        let ghost res0 = res@;
        let d = clone_delta(&deltas[h]);
        proof {
            assert(d@ == hs[h as int]);
        }
        let (k, found) = find_slot(&res, &d.num);
        if found {
            proof {
                let j1 = choose|j1: int| 0 <= j1 < h && views_of(res0)[k as int] == hs[j1];
                assert(views_of(res0)[k as int].num == d.num@);
                assert(hs[h as int].num == d.num@);
                assert(hs[j1].num == d.num@);
                assert(dup_nums(hs));
            }
            return Err(MergeError::DuplicateDelta(d.num));
        }
        res.insert(k, d);
        proof {
            lemma_views_of_insert(res0, k as int, d);
            let rv0 = views_of(res0);
            let rv1 = views_of(res@);
            assert(rv1 =~= rv0.insert(k as int, d@));
            let hpre = hs.subrange(0, h as int);
            let hpost = hs.subrange(0, h + 1);
            assert(hpost =~= hpre.push(hs[h as int]));
            // sortedness of the new vector
            assert forall|x: int, y: int| 0 <= x < y < rv1.len() implies num_lt_sp(
                rv1[x].num,
                rv1[y].num,
            ) by {
                if y < k {
                } else if y == k {
                    assert(rv1[y] == d@);
                } else {
                    if x < k {
                        if x == y - 1 {
                        } else {
                            assert(num_lt_sp(rv0[x].num, rv0[y - 1].num));
                        }
                    } else if x == k {
                        assert(num_lt_sp(d@.num, rv0[k as int].num));
                        if y - 1 == k {
                        } else {
                            lemma_num_lt_trans(d@.num, rv0[k as int].num, rv0[y - 1].num);
                        }
                    } else {
                        assert(num_lt_sp(rv0[x - 1].num, rv0[y - 1].num));
                    }
                }
            }
            // the numbers present are those of the processed prefix
            assert forall|n: Seq<u32>| has_num(rv1, n) implies has_num(hpost, n) by {
                let i = choose|i: int| 0 <= i < rv1.len() && (#[trigger] rv1[i]).num == n;
                if i == k {
                    assert(hpost[h as int].num == n);
                } else {
                    let i0: int = if i < k {
                        i
                    } else {
                        i - 1
                    };
                    assert(rv0[i0].num == n);
                    assert(has_num(rv0, n));
                    let j = choose|j: int| 0 <= j < hpre.len() && (#[trigger] hpre[j]).num == n;
                    assert(hpost[j].num == n);
                }
            }
            assert forall|n: Seq<u32>| has_num(hpost, n) implies has_num(rv1, n) by {
                let j = choose|j: int| 0 <= j < hpost.len() && (#[trigger] hpost[j]).num == n;
                if j == h {
                    assert(rv1[k as int].num == n);
                } else {
                    assert(hpre[j].num == n);
                    assert(has_num(hpre, n));
                    assert(has_num(rv0, n));
                    let i = choose|i: int| 0 <= i < rv0.len() && (#[trigger] rv0[i]).num == n;
                    if i < k {
                        assert(rv1[i].num == n);
                    } else {
                        assert(rv1[i + 1].num == n);
                    }
                }
            }
            // each element of the result is one of the processed headers
            assert forall|k2: int| 0 <= k2 < rv1.len() implies exists|j: int|
                0 <= j < h + 1 && #[trigger] rv1[k2] == hs[j] by {
                if k2 == k {
                    assert(rv1[k2] == hs[h as int]);
                } else {
                    let k0: int = if k2 < k {
                        k2
                    } else {
                        k2 - 1
                    };
                    let j = choose|j: int| 0 <= j < h && views_of(res0)[k0] == hs[j];
                    assert(rv1[k2] == hs[j]);
                }
            }
            // the processed prefix stays free of duplicates
            assert forall|j1: int, j2: int| 0 <= j1 < j2 < h + 1 implies (#[trigger] hs[j1]).num
                != (#[trigger] hs[j2]).num by {
                if j2 == h {
                    assert(!has_num(views_of(res0), d@.num));
                    if hs[j1].num == hs[h as int].num {
                        assert(hpre[j1].num == hs[h as int].num);
                        assert(has_num(hpre, d@.num));
                    }
                }
            }
        }
        h = h + 1;
    }
    proof {
        assert(hs.subrange(0, hs.len() as int) =~= hs);
        assert(!dup_nums(hs));
    }
    // fill each delta from its bodies, last body winning
    let mut i: usize = 0;
    proof {
        assert(ts.subrange(0, 0) =~= Seq::<DeltaTextSp>::empty());
        assert forall|k: int| 0 <= k < res@.len() implies exists|j: int|
            0 <= j < hs.len() && (#[trigger] views_of(res@)[k]).num == hs[j].num && views_of(
            res@,
        )[k] == merge_fields(hs[j], ts.subrange(0, 0)) by {
            let j = choose|j: int| 0 <= j < hs.len() && views_of(res@)[k] == hs[j];
            lemma_last_text_idx(ts.subrange(0, 0), hs[j].num);
            assert(merge_fields(hs[j], ts.subrange(0, 0)) == hs[j]);
        }
    }
    while i < texts.len()
        invariant
            i <= texts@.len(),
            hs == views_of(deltas@),
            ts == views_of(texts@),
            res@.len() == hs.len(),
            !dup_nums(hs),
            crate::deltas_sorted(views_of(res@)),
            forall|n: Seq<u32>| has_num(views_of(res@), n) == has_num(hs, n),
            forall|i2: int| 0 <= i2 < i ==> has_num(hs, (#[trigger] ts[i2]).num),
            forall|k: int|
                0 <= k < res@.len() ==> exists|j: int|
                    0 <= j < hs.len() && (#[trigger] views_of(res@)[k]).num == hs[j].num
                        && views_of(res@)[k] == merge_fields(hs[j], ts.subrange(0, i as int)),
        decreases texts@.len() - i,
    {
        let t = &texts[i];
        proof {
            assert(t@ == ts[i as int]);
        }
        let (k, found) = find_slot(&res, &t.num);
        if !found {
            proof {
                assert(!has_num(hs, ts[i as int].num));
                assert(unmatched_text(hs, ts));
                assert(merge_conflict(views_of(deltas@), views_of(texts@)));
                assert(text_has_num(ts, ts[i as int].num));
            }
            return Err(MergeError::MissingDelta(clone_num(&t.num)));
        }
        let ghost res0 = res@;
        let mut d = res.remove(k);
        d.log = clone_string(&t.log);
        d.text = clone_text(&t.text);
        res.insert(k, d);
        proof {
            let rv0 = views_of(res0);
            lemma_views_of_remove(res0, k as int);
            lemma_views_of_insert(res0.remove(k as int), k as int, d);
            let rv1 = views_of(res@);
            assert(rv1 =~= rv0.update(k as int, d@));
            assert(d@ == DeltaSp { log: ts[i as int].log, text: ts[i as int].text, ..rv0[k as int] });
            assert(ts.subrange(0, i + 1).drop_last() =~= ts.subrange(0, i as int));
            assert(ts.subrange(0, i + 1).last() == ts[i as int]);
            // sortedness and numbers survive, since the number is untouched
            assert(rv1[k as int].num == rv0[k as int].num);
            assert forall|x: int, y: int| 0 <= x < y < rv1.len() implies num_lt_sp(
                rv1[x].num,
                rv1[y].num,
            ) by {
                assert(rv1[x].num == rv0[x].num);
                assert(rv1[y].num == rv0[y].num);
            }
            assert forall|n: Seq<u32>| has_num(rv1, n) == has_num(hs, n) by {
                assert forall|i3: int| 0 <= i3 < rv1.len() implies rv1[i3].num == rv0[i3].num by {}
                if has_num(rv1, n) {
                    let i4 = choose|i4: int| 0 <= i4 < rv1.len() && rv1[i4].num == n;
                    assert(rv0[i4].num == n);
                }
                if has_num(rv0, n) {
                    let i4 = choose|i4: int| 0 <= i4 < rv0.len() && rv0[i4].num == n;
                    assert(rv1[i4].num == n);
                }
            }
            // each element is still a header merged with the bodies so far
            assert forall|k2: int| 0 <= k2 < rv1.len() implies exists|j: int|
                0 <= j < hs.len() && (#[trigger] rv1[k2]).num == hs[j].num && rv1[k2]
                    == merge_fields(hs[j], ts.subrange(0, i + 1)) by {
                let j = choose|j: int|
                    0 <= j < hs.len() && rv0[k2].num == hs[j].num && rv0[k2] == merge_fields(
                        hs[j],
                        ts.subrange(0, i as int),
                    );
                lemma_last_text_idx(ts.subrange(0, i as int), hs[j].num);
                lemma_last_text_idx(ts.subrange(0, i + 1), hs[j].num);
                if k2 == k {
                    assert(hs[j].num == ts[i as int].num);
                    assert(last_text_idx(ts.subrange(0, i + 1), hs[j].num) == i);
                    assert(rv1[k2] == merge_fields(hs[j], ts.subrange(0, i + 1)));
                } else {
                    // a different slot has a different number, so the new
                    // body does not touch it
                    assert(rv1[k2] == rv0[k2]);
                    assert(rv0[k2].num != rv0[k as int].num) by {
                        if k2 < k {
                            lemma_num_lt_connected(rv0[k2].num, rv0[k as int].num);
                        } else {
                            lemma_num_lt_connected(rv0[k as int].num, rv0[k2].num);
                        }
                    }
                    assert(hs[j].num != ts[i as int].num);
                    assert(last_text_idx(ts.subrange(0, i + 1), hs[j].num) == last_text_idx(
                        ts.subrange(0, i as int),
                        hs[j].num,
                    ));
                    assert(rv1[k2] == merge_fields(hs[j], ts.subrange(0, i + 1)));
                }
            }
        }
        i = i + 1;
    }
    proof {
        assert(ts.subrange(0, ts.len() as int) =~= ts);
    }
    // every delta must have received a body
    let mut k2: usize = 0;
    while k2 < res.len()
        invariant
            k2 <= res@.len(),
            hs == views_of(deltas@),
            ts == views_of(texts@),
            res@.len() == hs.len(),
            !dup_nums(hs),
            crate::deltas_sorted(views_of(res@)),
            forall|n: Seq<u32>| has_num(views_of(res@), n) == has_num(hs, n),
            forall|i2: int| 0 <= i2 < ts.len() ==> has_num(hs, (#[trigger] ts[i2]).num),
            forall|k: int|
                0 <= k < res@.len() ==> exists|j: int|
                    0 <= j < hs.len() && (#[trigger] views_of(res@)[k]).num == hs[j].num
                        && views_of(res@)[k] == merge_fields(hs[j], ts),
            forall|k3: int| 0 <= k3 < k2 ==> text_has_num(ts, (#[trigger] views_of(res@)[k3]).num),
        decreases res@.len() - k2,
    {
        if !text_with_num_exists(&texts, &res[k2].num) {
            proof {
                assert(views_of(res@)[k2 as int].num == res@[k2 as int]@.num);
                assert(has_num(views_of(res@), views_of(res@)[k2 as int].num));
                assert(has_num(hs, views_of(res@)[k2 as int].num));
                let j = choose|j: int|
                    0 <= j < hs.len() && (#[trigger] hs[j]).num == views_of(res@)[k2 as int].num;
                assert(!text_has_num(ts, hs[j].num));
                assert(unmatched_delta(hs, ts));
                assert(merge_conflict(views_of(deltas@), views_of(texts@)));
            }
            return Err(MergeError::MissingDeltaText(clone_num(&res[k2].num)));
        }
        k2 = k2 + 1;
    }
    proof {
        assert(!unmatched_text(hs, ts));
        assert forall|j: int| 0 <= j < hs.len() implies text_has_num(ts, (#[trigger] hs[j]).num) by {
            assert(has_num(hs, hs[j].num));
            assert(has_num(views_of(res@), hs[j].num));
            let k = choose|k: int| 0 <= k < views_of(res@).len() && views_of(res@)[k].num
                == hs[j].num;
            assert(text_has_num(ts, views_of(res@)[k].num));
        }
        assert(!unmatched_delta(hs, ts));
        assert forall|k: int| 0 <= k < res@.len() implies delta_merged(
            hs,
            ts,
            #[trigger] views_of(res@)[k],
        ) by {}
    }
    Ok(res)
}

/// The whole document grammar at a position: the administrative header,
/// the delta headers, the description, the delta bodies, and one final
/// line terminator.  The components are returned separately; the merge
/// step is specified on top of them.
pub open spec fn sp_document(s: Seq<char>, i: int) -> Option<
    (int, RcsDataSp, Seq<DeltaSp>, Seq<char>, Seq<DeltaTextSp>),
> {
    match sp_admin(s, i) {
        None => None,
        Some((p1, admin)) => {
            let (p2, ds) = sp_delta_list(s, p1);
            match sp_desc(s, p2) {
                None => None,
                Some((p3, desc)) => match sp_deltatexts(s, p3) {
                    None => None,
                    Some((p4, dts)) => if p4 < s.len() && s[p4] == '\n' {
                        Some((p4 + 1, admin, ds, desc, dts))
                    } else if p4 < s.len() && s[p4] == '\r' && p4 + 1 < s.len() && s[p4 + 1]
                        == '\n' {
                        Some((p4 + 2, admin, ds, desc, dts))
                    } else {
                        None
                    },
                },
            }
        },
    }
}

/// Parses a whole document at a position and merges the delta bodies
/// into their headers.
#[verifier::rlimit(100)]
#[verifier::spinoff_prover]
pub fn parse_rcs_at(s: &[char], pos: usize) -> (r: Result<(usize, RcsData), RcsError>)
    requires
        pos <= s.len(),
    ensures
        match r {
            Ok((q, data)) => {
                &&& sp_document(s@, pos as int) matches Some((e, admin, ds, desc, dts))
                &&& q == e
                &&& pos <= q <= s.len()
                &&& !merge_conflict(ds, dts)
                &&& data@.head == admin.head
                &&& data@.branch == admin.branch
                &&& data@.access == admin.access
                &&& data@.symbols == admin.symbols
                &&& data@.locks == admin.locks
                &&& data@.strict == admin.strict
                &&& data@.integrity == admin.integrity
                &&& data@.comment == admin.comment
                &&& data@.expand == admin.expand
                &&& data@.desc == desc
                &&& data@.deltas.len() == ds.len()
                &&& crate::deltas_sorted(data@.deltas)
                &&& forall|n: Seq<u32>| has_num(data@.deltas, n) == has_num(ds, n)
                &&& forall|k: int|
                    0 <= k < data@.deltas.len() ==> delta_merged(
                        ds,
                        dts,
                        #[trigger] data@.deltas[k],
                    )
            },
            Err(RcsError::Parse(e)) => {
                &&& sp_document(s@, pos as int) is None
                &&& e.wf()
                &&& e.trace@.len() >= 2
                &&& e.trace@.last().kind matches ErrKind::Context(c) && c@ == "RCS"@
            },
            Err(RcsError::Merge(m)) => {
                &&& sp_document(s@, pos as int) matches Some((e, admin, ds, desc, dts))
                &&& merge_conflict(ds, dts)
                &&& (m matches MergeError::DuplicateDelta(n) ==> exists|i: int, j: int|
                    0 <= i < j < ds.len() && (#[trigger] ds[i]).num == n@ && (#[trigger] ds[j]).num
                        == n@)
                &&& (m matches MergeError::MissingDelta(n) ==> text_has_num(dts, n@) && !has_num(
                    ds,
                    n@,
                ))
                &&& (m matches MergeError::MissingDeltaText(n) ==> has_num(ds, n@)
                    && !text_has_num(dts, n@))
            },
        },
{
    let admin = match parse_admin_at(s, pos) {
        Err(e) => {
            return Err(RcsError::Parse(e.with_context(pos, "RCS")));
        },
        Ok(o) => o,
    };
    let (p2, ds) = parse_deltas_at(s, admin.0);
    let desc = match parse_desc_at(s, p2) {
        Err(e) => {
            return Err(RcsError::Parse(e.with_context(p2, "RCS")));
        },
        Ok(o) => o,
    };
    let dts = match parse_deltatexts_at(s, desc.0) {
        Err(e) => {
            return Err(RcsError::Parse(e.with_context(desc.0, "RCS")));
        },
        Ok(o) => o,
    };
    let p4 = dts.0;
    let q: usize;
    if p4 < s.len() && s[p4] == '\n' {
        q = p4 + 1;
    } else if p4 < s.len() && s[p4] == '\r' && p4 + 1 < s.len() && s[p4 + 1] == '\n' {
        q = p4 + 2;
    } else {
        return Err(RcsError::Parse(ParseError::new(p4, ErrKind::CrLf).with_context(p4, "RCS")));
    }
    let ghost dsv = views_of(ds@);
    let ghost dtsv = views_of(dts.1@);
    proof {
        assert(sp_document(s@, pos as int) matches Some((e, admin2, ds2, desc2, dts2)) && ds2
            == dsv && dts2 == dtsv);
    }
    let merged = match build_deltas(ds, dts.1) {
        Err(m) => {
            proof {
                assert(merge_conflict(dsv, dtsv));
            }
            return Err(RcsError::Merge(m));
        },
        Ok(o) => o,
    };
    let mut data = admin.1;
    data.desc = desc.1;
    data.deltas = merged;
    Ok((q, data))
}

/// Parses a whole comma-v document at the start of the input: the entry
/// point of the library.  On success it returns the unconsumed remainder
/// and the completed document, whose deltas are sorted by revision
/// number and carry the log and body of their delta bodies.
pub fn parse_rcs<'a>(input: &'a str) -> (r: Result<(&'a str, RcsData), RcsError>)
    ensures
        match r {
            Ok((rem, data)) => {
                &&& sp_document(input@, 0) matches Some((e, admin, ds, desc, dts))
                &&& rem@ == input@.subrange(e, input@.len() as int)
                &&& !merge_conflict(ds, dts)
                &&& data@.head == admin.head
                &&& data@.branch == admin.branch
                &&& data@.access == admin.access
                &&& data@.symbols == admin.symbols
                &&& data@.locks == admin.locks
                &&& data@.strict == admin.strict
                &&& data@.integrity == admin.integrity
                &&& data@.comment == admin.comment
                &&& data@.expand == admin.expand
                &&& data@.desc == desc
                &&& data@.deltas.len() == ds.len()
                &&& crate::deltas_sorted(data@.deltas)
                &&& forall|n: Seq<u32>| has_num(data@.deltas, n) == has_num(ds, n)
                &&& forall|k: int|
                    0 <= k < data@.deltas.len() ==> delta_merged(
                        ds,
                        dts,
                        #[trigger] data@.deltas[k],
                    )
            },
            Err(RcsError::Parse(e)) => {
                &&& sp_document(input@, 0) is None
                &&& e.wf()
                &&& e.trace@.len() >= 2
                &&& e.trace@.last().kind matches ErrKind::Context(c) && c@ == "RCS"@
            },
            Err(RcsError::Merge(m)) => {
                &&& sp_document(input@, 0) matches Some((e, admin, ds, desc, dts))
                &&& merge_conflict(ds, dts)
                &&& (m matches MergeError::DuplicateDelta(n) ==> exists|i: int, j: int|
                    0 <= i < j < ds.len() && (#[trigger] ds[i]).num == n@ && (#[trigger] ds[j]).num
                        == n@)
                &&& (m matches MergeError::MissingDelta(n) ==> text_has_num(dts, n@) && !has_num(
                    ds,
                    n@,
                ))
                &&& (m matches MergeError::MissingDeltaText(n) ==> has_num(ds, n@)
                    && !text_has_num(dts, n@))
            },
        },
{
    let cs = crate::parsers::str_to_chars(input);
    let n = cs.len();
    match parse_rcs_at(cs.as_slice(), 0) {
        Ok((e, data)) => {
            let rem = input.substring_char(e, n);
            Ok((rem, data))
        },
        Err(e) => Err(e),
    }
}

} // verus!
