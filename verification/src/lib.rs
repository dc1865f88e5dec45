//! Parser for the textual `comma-v` storage format of the RCS revision
//! control system.
//!
//! The grammar is parsed by recursive descent, left to right and without
//! backtracking across rule boundaries.  Every parsing function is verified
//! against a specification-level parser for its grammar rule: on success it
//! returns exactly the value and end position that the rule derives, and it
//! fails exactly on the inputs that the rule rejects, reporting a trace of
//! (position, rule) pairs from the innermost rule outwards.

use vstd::prelude::*;

pub mod error;
pub mod num;
pub mod parsers;

pub use error::{ErrKind, MergeError, ParseError, RcsError, TraceEntry};
pub use num::Num;
pub use parsers::admin::{parse_admin, parse_strict};
pub use parsers::chars::{is_idchar, is_special_chars, is_visible_char, parse_id, parse_sym};
pub use parsers::combinators::{
    parse_value, parse_value_all_opt, parse_value_many0, parse_value_opt,
};
pub use parsers::delta::parse_delta;
pub use parsers::deltatext::{parse_deltatext, parse_deltatext_head};
pub use parsers::diff::{parse_diff_command, parse_diff_line};
pub use parsers::num::parse_num;
pub use parsers::rcsdata::{build_deltas, parse_deltas, parse_desc, parse_deltatexts, parse_rcs};
pub use parsers::string::{parse_intstring, parse_string};

verus! {

/// The views of the elements of a sequence, in order.
pub open spec fn views_of<T: View>(s: Seq<T>) -> Seq<T::V> {
    s.map_values(|x: T| x@)
}

/// One instruction of the diff stream stored in an ordinary delta body.
#[derive(Debug, PartialEq, Eq, Clone)]
pub enum DiffCommand {
    /// Insert the given lines after the given line position.
    Add(u32, Vec<String>),
    /// Delete the given count of lines starting at the given position.
    Delete(u32, u32),
}

/// Specification-level value of a [`DiffCommand`].
pub enum DiffCommandSp {
    Add(u32, Seq<Seq<char>>),
    Delete(u32, u32),
}

impl View for DiffCommand {
    type V = DiffCommandSp;

    open spec fn view(&self) -> DiffCommandSp {
        match self {
            DiffCommand::Add(pos, lines) => DiffCommandSp::Add(*pos, views_of(lines@)),
            DiffCommand::Delete(pos, count) => DiffCommandSp::Delete(*pos, *count),
        }
    }
}

/// The body of one revision: either the full text of the head revision or
/// the diff stream of any other revision.
#[derive(Debug, PartialEq, Eq, Clone)]
pub enum Text {
    Head(String),
    Diff(Vec<DiffCommand>),
}

/// Specification-level value of a [`Text`].
pub enum TextSp {
    Head(Seq<char>),
    Diff(Seq<DiffCommandSp>),
}

impl View for Text {
    type V = TextSp;

    open spec fn view(&self) -> TextSp {
        match self {
            Text::Head(s) => TextSp::Head(s@),
            Text::Diff(cmds) => TextSp::Diff(views_of(cmds@)),
        }
    }
}

/// One revision's commit log together with its body, as parsed from a
/// `deltatext` section.
#[derive(Debug, PartialEq, Eq, Clone)]
pub struct DeltaText {
    /// The revision number.
    pub num: Num,
    /// The commit log message.
    pub log: String,
    /// The body: head text or diff stream.
    pub text: Text,
}

/// Specification-level value of a [`DeltaText`].
pub struct DeltaTextSp {
    pub num: Seq<u32>,
    pub log: Seq<char>,
    pub text: TextSp,
}

impl View for DeltaText {
    type V = DeltaTextSp;

    open spec fn view(&self) -> DeltaTextSp {
        DeltaTextSp { num: self.num@, log: self.log@, text: self.text@ }
    }
}

/// One revision's full record.  `log` and `text` are placeholders (empty
/// log, empty diff) right after header parsing; the merge step of
/// [`build_deltas`] fills them from the matching [`DeltaText`].
#[derive(Debug, PartialEq, Eq, Clone)]
pub struct Delta {
    pub num: Num,
    pub date: Num,
    pub author: String,
    pub state: Option<String>,
    pub branches: Vec<Num>,
    pub next: Option<Num>,
    pub commitid: Option<String>,
    pub log: String,
    pub text: Text,
}

/// Specification-level value of a [`Delta`].
pub struct DeltaSp {
    pub num: Seq<u32>,
    pub date: Seq<u32>,
    pub author: Seq<char>,
    pub state: Option<Seq<char>>,
    pub branches: Seq<Seq<u32>>,
    pub next: Option<Seq<u32>>,
    pub commitid: Option<Seq<char>>,
    pub log: Seq<char>,
    pub text: TextSp,
}

impl View for Delta {
    type V = DeltaSp;

    open spec fn view(&self) -> DeltaSp {
        DeltaSp {
            num: self.num@,
            date: self.date@,
            author: self.author@,
            state: match self.state {
                Some(ref s) => Some(s@),
                None => None,
            },
            branches: views_of(self.branches@),
            next: match self.next {
                Some(ref n) => Some(n@),
                None => None,
            },
            commitid: match self.commitid {
                Some(ref s) => Some(s@),
                None => None,
            },
            log: self.log@,
            text: self.text@,
        }
    }
}

/// The whole parsed document.  `deltas` is the per-revision mapping, kept as
/// a vector sorted strictly by the total order on revision numbers, so keys
/// are unique.
#[derive(Debug, PartialEq, Eq, Clone)]
pub struct RcsData {
    pub head: Num,
    pub branch: Option<Num>,
    pub access: Vec<String>,
    pub symbols: Vec<(String, Num)>,
    pub locks: Vec<(String, Num)>,
    pub strict: bool,
    pub integrity: Option<String>,
    pub comment: Option<String>,
    pub expand: Option<String>,
    pub desc: String,
    pub deltas: Vec<Delta>,
}

/// Specification-level value of an [`RcsData`].
pub struct RcsDataSp {
    pub head: Seq<u32>,
    pub branch: Option<Seq<u32>>,
    pub access: Seq<Seq<char>>,
    pub symbols: Seq<(Seq<char>, Seq<u32>)>,
    pub locks: Seq<(Seq<char>, Seq<u32>)>,
    pub strict: bool,
    pub integrity: Option<Seq<char>>,
    pub comment: Option<Seq<char>>,
    pub expand: Option<Seq<char>>,
    pub desc: Seq<char>,
    pub deltas: Seq<DeltaSp>,
}

impl View for RcsData {
    type V = RcsDataSp;

    open spec fn view(&self) -> RcsDataSp {
        RcsDataSp {
            head: self.head@,
            branch: match self.branch {
                Some(ref n) => Some(n@),
                None => None,
            },
            access: views_of(self.access@),
            symbols: views_of(self.symbols@),
            locks: views_of(self.locks@),
            strict: self.strict,
            integrity: match self.integrity {
                Some(ref s) => Some(s@),
                None => None,
            },
            comment: match self.comment {
                Some(ref s) => Some(s@),
                None => None,
            },
            expand: match self.expand {
                Some(ref s) => Some(s@),
                None => None,
            },
            desc: self.desc@,
            deltas: views_of(self.deltas@),
        }
    }
}

/// The deltas of a document are sorted strictly by the revision-number
/// order, which makes their keys unique.
pub open spec fn deltas_sorted(ds: Seq<DeltaSp>) -> bool {
    forall|i: int, j: int|
        0 <= i < j < ds.len() ==> crate::num::num_lt_sp(#[trigger] ds[i].num, #[trigger] ds[j].num)
}

} // verus!
