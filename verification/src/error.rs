//! Structured parse and merge errors.
//!
//! A failing parse carries a trace of (position, kind) pairs from the
//! innermost failing rule outwards: the position is the index of the first
//! unconsumed character when the rule failed, and each enclosing rule adds
//! a context entry with its own name and start position.

use vstd::prelude::*;

verus! {

/// What a single trace entry reports.
#[derive(Debug, PartialEq, Eq, Clone)]
pub enum ErrKind {
    /// A run of decimal digits was expected, or a digit run exceeded the
    /// component range.
    Digit,
    /// A fixed token (a keyword, `@`, `:` or `;`) was expected.
    Tag,
    /// At least one character of a required class was expected.
    TakeWhile1,
    /// One of the diff opcodes `a` or `d` was expected.
    OneOf,
    /// A line ending (`\n` or `\r\n`) was expected.
    CrLf,
    /// At least one whitespace character was expected.
    MultiSpace,
    /// A counted repetition could not read enough items.
    Count,
    /// The named enclosing rule failed.
    Context(String),
}

/// One entry of a failure trace.
#[derive(Debug, PartialEq, Eq, Clone)]
pub struct TraceEntry {
    /// Index of the first unconsumed character at the failure.
    pub pos: usize,
    /// What failed there.
    pub kind: ErrKind,
}

/// A structured parse failure: a non-empty trace from the innermost rule
/// outwards.
#[derive(Debug, PartialEq, Eq, Clone)]
pub struct ParseError {
    pub trace: Vec<TraceEntry>,
}

impl ParseError {
    /// A parse error is well-formed when it reports at least one entry.
    pub open spec fn wf(&self) -> bool {
        self.trace@.len() > 0
    }

    /// A fresh error with a single entry.
    pub fn new(pos: usize, kind: ErrKind) -> (r: ParseError)
        ensures
            r.wf(),
            r.trace@.len() == 1,
            r.trace@[0].pos == pos,
            r.trace@[0].kind == kind,
    {
        let mut trace = Vec::new();
        trace.push(TraceEntry { pos, kind });
        ParseError { trace }
    }

    /// Appends a plain kind entry, as a counted repetition does when one
    /// of its items fails.
    pub fn push_kind(self, pos: usize, kind: ErrKind) -> (r: ParseError)
        ensures
            r.trace@.len() == self.trace@.len() + 1,
            forall|k: int| 0 <= k < self.trace@.len() ==> r.trace@[k] == self.trace@[k],
            r.trace@[self.trace@.len() as int].pos == pos,
            r.trace@[self.trace@.len() as int].kind == kind,
            r.wf(),
    {
        let mut trace = self.trace;
        trace.push(TraceEntry { pos, kind });
        ParseError { trace }
    }

    /// Appends the name and start position of an enclosing rule.
    pub fn with_context(self, pos: usize, name: &str) -> (r: ParseError)
        ensures
            r.trace@.len() == self.trace@.len() + 1,
            forall|k: int| 0 <= k < self.trace@.len() ==> r.trace@[k] == self.trace@[k],
            r.trace@[self.trace@.len() as int].pos == pos,
            r.trace@[self.trace@.len() as int].kind matches ErrKind::Context(c) && c@ == name@,
            self.wf() ==> r.wf(),
            r.wf(),
    {
        let mut trace = self.trace;
        trace.push(TraceEntry { pos, kind: ErrKind::Context(name.to_owned()) });
        proof {
            assert(trace@.subrange(0, trace@.len() - 1) =~= self.trace@);
        }
        ParseError { trace }
    }
}

/// A failure of the merge step that pairs delta headers with delta bodies.
#[derive(Debug, PartialEq, Eq, Clone)]
pub enum MergeError {
    /// A delta body names a revision with no delta header.
    MissingDelta(crate::num::Num),
    /// Two delta headers carry the same revision number.
    DuplicateDelta(crate::num::Num),
    /// A delta header has no delta body.
    MissingDeltaText(crate::num::Num),
}

/// Everything a whole-document parse can report: a grammar failure with its
/// trace, or a failure to pair delta headers with delta bodies.
#[derive(Debug, PartialEq, Eq, Clone)]
pub enum RcsError {
    Parse(ParseError),
    Merge(MergeError),
}

} // verus!
