//! Parse errors, and how the errors of failed alternatives are merged.

use vstd::prelude::*;
use vstd::string::StringExecFns;
use crate::text::decimal;
use crate::text::position_at;
use crate::text::push_decimal;
use crate::text::Position;

verus! {

/// Why a parse failed.
#[derive(Clone, Copy, Debug, PartialEq, Eq, Structural)]
pub enum ErrorKind {
    /// The input differs from a literal.
    LiteralMismatch,
    /// A character was expected at the end of the input.
    UnexpectedEof,
    /// The next character is not in a character class, or the input has ended.
    ClassMismatch,
    /// The expression under a negation matched.
    NegationMatched,
    /// A repetition matched fewer times than its minimum.
    TooFewRepetitions,
    /// A referenced rule is not in the rule set.
    MissingRule,
    /// An ordered choice has no alternatives.
    NoAlternative,
    /// A rule reference found the budget of the status used up: with the
    /// budget that a parse starts with, a rule was entered again at the offset
    /// where it was entered before, with no character consumed in between.
    LeftRecursion,
    /// The start rule matched, but input is left over.
    TrailingInput,
}

/// A parse error: where the parse failed, why, a description, and the error
/// that it was built around, if any.
#[derive(Debug, PartialEq, Eq)]
pub struct Error {
    pub pos: Position,
    pub kind: ErrorKind,
    pub descr: String,
    pub cause: Option<Box<Error>>,
}

/// The mathematical value that an `Error` stands for.
pub struct ErrorView {
    pub pos: Position,
    pub kind: ErrorKind,
    pub descr: Seq<char>,
    pub cause: Option<Box<ErrorView>>,
}

pub open spec fn error_view(e: Error) -> ErrorView
    decreases e,
{
    ErrorView {
        pos: e.pos,
        kind: e.kind,
        descr: e.descr@,
        cause: match e.cause {
            Some(inner) => Some(Box::new(error_view(*inner))),
            None => None,
        },
    }
}

impl View for Error {
    type V = ErrorView;

    open spec fn view(&self) -> ErrorView {
        error_view(*self)
    }
}

/// The view of an error that may be absent.
pub open spec fn option_error_view(e: Option<Error>) -> Option<ErrorView> {
    match e {
        Some(e) => Some(e@),
        None => None,
    }
}

/// An error without a cause at offset `n` of `text`.
pub open spec fn failure(text: Seq<char>, n: int, kind: ErrorKind, descr: Seq<char>) -> ErrorView {
    ErrorView { pos: position_at(text, n), kind, descr, cause: None }
}

/// The deeper of two errors. Of two errors at the same offset the first is
/// kept, with the description of the second added to its own.
pub open spec fn merge_errors(best: Option<ErrorView>, e: ErrorView) -> ErrorView {
    match best {
        None => e,
        Some(b) => if b.pos.n > e.pos.n {
            b
        } else if b.pos.n < e.pos.n {
            e
        } else {
            ErrorView { pos: b.pos, kind: b.kind, descr: b.descr + " / "@ + e.descr, cause: b.cause }
        },
    }
}

/// The error `e` as seen from outside `context`: same place and kind, the
/// description prefixed with the context, and `e` itself as the cause.
pub open spec fn in_context(context: Seq<char>, e: ErrorView) -> ErrorView {
    ErrorView {
        pos: e.pos,
        kind: e.kind,
        descr: context + " > "@ + e.descr,
        cause: Some(Box::new(e)),
    }
}

/// The text of an error: its line, a colon, its column, a colon and a space,
/// and its description.
pub open spec fn message_of(e: ErrorView) -> Seq<char> {
    decimal(e.pos.row as nat) + ":"@ + decimal(e.pos.col as nat) + ": "@ + e.descr
}

impl Error {
    /// The error as text: where it lies and what its description says, which
    /// names the rules that were being parsed.
    pub fn message(&self) -> (text: String)
        ensures
            text@ == message_of(self@),
    {
        let mut text = String::new();
        push_decimal(&mut text, self.pos.row);
        text.append(":");
        push_decimal(&mut text, self.pos.col);
        text.append(": ");
        text.append(self.descr.as_str());
        assert(text@ =~= message_of(self@));
        text
    }
}

/// An error without a cause.
pub fn error(pos: &Position, kind: ErrorKind, descr: &str) -> (e: Error)
    ensures
        e@ == (ErrorView { pos: *pos, kind, descr: descr@, cause: None }),
{
    Error { pos: *pos, kind, descr: String::from_str(descr), cause: None }
}

/// The deeper of two errors; see `merge_errors`.
pub fn deep_error(err1: Option<Error>, err2: Error) -> (e: Error)
    ensures
        e@ == merge_errors(option_error_view(err1), err2@),
{
    match err1 {
        Some(first) => {
            if first.pos.n > err2.pos.n {
                first
            } else if first.pos.n < err2.pos.n {
                err2
            } else {
                let Error { pos, kind, descr, cause } = first;
                let descr = descr.concat(" / ").concat(err2.descr.as_str());
                Error { pos, kind, descr, cause }
            }
        },
        None => err2,
    }
}

/// The error as seen from outside `descr`; see `in_context`.
pub fn add_descr_error(error: Error, descr: &str) -> (e: Error)
    ensures
        e@ == in_context(descr@, error@),
{
    let text = String::from_str(descr).concat(" > ").concat(error.descr.as_str());
    Error { pos: error.pos, kind: error.kind, descr: text, cause: Some(Box::new(error)) }
}

} // verus!
