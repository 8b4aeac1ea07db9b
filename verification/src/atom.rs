//! Terminals: a literal string, any character, a character of a class.

use vstd::prelude::*;
use vstd::string::StringExecFns;
use crate::error::error;
use crate::error::failure;
use crate::error::Error;
use crate::error::ErrorKind;
use crate::error::ErrorView;
use crate::text::position_at;
use crate::text::step;
use crate::text::Position;
use crate::text::Text2Parse;

verus! {

/// A set of characters: those listed in `chars`, and those of each inclusive
/// range `(low, high)` of `ranges`.
#[derive(Debug, PartialEq, Eq)]
pub struct CharClass {
    pub chars: Vec<char>,
    pub ranges: Vec<(char, char)>,
}

pub struct CharClassView {
    pub chars: Seq<char>,
    pub ranges: Seq<(char, char)>,
}

impl View for CharClass {
    type V = CharClassView;

    open spec fn view(&self) -> CharClassView {
        CharClassView { chars: self.chars@, ranges: self.ranges@ }
    }
}

/// A terminal of a grammar.
#[derive(Debug, PartialEq, Eq)]
pub enum Atom {
    /// Matches exactly this text.
    Literal(String),
    /// Matches one character of the class.
    Match(CharClass),
    /// Matches any one character.
    Dot,
}

pub enum AtomView {
    Literal(Seq<char>),
    Match(CharClassView),
    Dot,
}

impl View for Atom {
    type V = AtomView;

    open spec fn view(&self) -> AtomView {
        match self {
            Atom::Literal(lit) => AtomView::Literal(lit@),
            Atom::Match(class) => AtomView::Match(class@),
            Atom::Dot => AtomView::Dot,
        }
    }
}

/// Whether `c` lies between `range.0` and `range.1`, both included.
pub open spec fn in_range(range: (char, char), c: char) -> bool {
    range.0 <= c && c <= range.1
}

/// Whether the class holds `c`: it is listed, or lies in one of the ranges.
pub open spec fn class_contains(class: CharClassView, c: char) -> bool {
    class.chars.contains(c) || exists|i: int|
        0 <= i < class.ranges.len() && in_range(#[trigger] class.ranges[i], c)
}

/// The first index at or after `i` at which `lit` and the text from offset `n`
/// differ, or at which one of them ends.
pub open spec fn mismatch_at(lit: Seq<char>, text: Seq<char>, n: int, i: int) -> int
    decreases lit.len() - i,
{
    if 0 <= i < lit.len() && 0 <= n + i < text.len() && lit[i] == text[n + i] {
        mismatch_at(lit, text, n, i + 1)
    } else {
        i
    }
}

/// What a terminal does at offset `n` of `text`: the offset after the match and
/// the text it captured, or the error.
///
/// A literal matches if the text from `n` starts with it, and fails at the
/// first character that differs. A dot matches any one character. A class
/// matches one character that it holds.
pub open spec fn eval_atom(text: Seq<char>, atom: AtomView, n: int) -> Result<
    (int, Seq<char>),
    ErrorView,
> {
    match atom {
        AtomView::Literal(lit) => {
            let k = mismatch_at(lit, text, n, 0);
            if k == lit.len() {
                Ok((n + k, lit))
            } else {
                Err(failure(text, n + k, ErrorKind::LiteralMismatch, "expected literal "@ + lit))
            }
        },
        AtomView::Dot => if 0 <= n < text.len() {
            Ok((n + 1, seq![text[n]]))
        } else {
            Err(failure(text, n, ErrorKind::UnexpectedEof, "expected any character"@))
        },
        AtomView::Match(class) => if 0 <= n < text.len() && class_contains(class, text[n]) {
            Ok((n + 1, seq![text[n]]))
        } else {
            Err(failure(text, n, ErrorKind::ClassMismatch, "expected a character of the class"@))
        },
    }
}

/// Whether the result `r` of a terminal says what `expected` says.
pub open spec fn atom_result_is(
    text: Seq<char>,
    r: Result<(Position, String), Error>,
    expected: Result<(int, Seq<char>), ErrorView>,
) -> bool {
    match expected {
        Ok((end, captured)) => r matches Ok((pos, got)) && pos == position_at(text, end) && got@
            == captured && end <= text.len(),
        Err(f) => r matches Err(e) && e@ == f,
    }
}

/// Matches the literal `s` at `pars_pos`.
pub fn parse_literal(text2parse: &Text2Parse, s: &str, pars_pos: Position) -> (r: Result<
    (Position, String),
    Error,
>)
    requires
        pars_pos.n <= text2parse@.len(),
        pars_pos == position_at(text2parse@, pars_pos.n as int),
    ensures
        atom_result_is(
            text2parse@,
            r,
            eval_atom(text2parse@, AtomView::Literal(s@), pars_pos.n as int),
        ),
{
    let mut cur = pars_pos;
    let len = text2parse.len();
    for c in it: s.chars()
        invariant
            len == text2parse@.len(),
            it.seq() == s@,
            pars_pos.n + it.index() <= len,
            cur == position_at(text2parse@, pars_pos.n + it.index()),
            mismatch_at(s@, text2parse@, pars_pos.n as int, 0) == mismatch_at(
                s@,
                text2parse@,
                pars_pos.n as int,
                it.index() as int,
            ),
    {
        if cur.n < len && text2parse.char_at(cur.n) == c {
            cur = step(text2parse, cur);
        } else {
            let descr = String::from_str("expected literal ").concat(s);
            return Err(error(&cur, ErrorKind::LiteralMismatch, descr.as_str()));
        }
    }
    Ok((cur, String::from_str(s)))
}

/// Matches any one character at `pars_pos`.
pub fn parse_dot(text2parse: &Text2Parse, pars_pos: Position) -> (r: Result<
    (Position, String),
    Error,
>)
    requires
        pars_pos.n <= text2parse@.len(),
        pars_pos == position_at(text2parse@, pars_pos.n as int),
    ensures
        atom_result_is(text2parse@, r, eval_atom(text2parse@, AtomView::Dot, pars_pos.n as int)),
{
    if pars_pos.n < text2parse.len() {
        let mut captured = String::new();
        captured.push(text2parse.char_at(pars_pos.n));
        Ok((step(text2parse, pars_pos), captured))
    } else {
        Err(error(&pars_pos, ErrorKind::UnexpectedEof, "expected any character"))
    }
}

impl CharClass {
    /// Whether the class holds `c`.
    pub fn contains(&self, c: char) -> (found: bool)
        ensures
            found == class_contains(self@, c),
    {
        let mut i: usize = 0;
        while i < self.chars.len()
            invariant
                i <= self.chars.len(),
                forall|j: int| 0 <= j < i ==> self.chars@[j] != c,
            decreases self.chars.len() - i,
        {
            if self.chars[i] == c {
                return true;
            }
            i += 1;
        }
        let mut k: usize = 0;
        while k < self.ranges.len()
            invariant
                k <= self.ranges.len(),
                !self.chars@.contains(c),
                forall|j: int| 0 <= j < k ==> !in_range(#[trigger] self.ranges@[j], c),
            decreases self.ranges.len() - k,
        {
            let (low, high) = self.ranges[k];
            if low <= c && c <= high {
                proof {
                    assert(in_range(self@.ranges[k as int], c));
                }
                return true;
            }
            k += 1;
        }
        false
    }
}

/// Matches one character of `class` at `pars_pos`.
pub fn parse_match(text2parse: &Text2Parse, class: &CharClass, pars_pos: Position) -> (r: Result<
    (Position, String),
    Error,
>)
    requires
        pars_pos.n <= text2parse@.len(),
        pars_pos == position_at(text2parse@, pars_pos.n as int),
    ensures
        atom_result_is(
            text2parse@,
            r,
            eval_atom(text2parse@, AtomView::Match(class@), pars_pos.n as int),
        ),
{
    if pars_pos.n < text2parse.len() && class.contains(text2parse.char_at(pars_pos.n)) {
        let mut captured = String::new();
        captured.push(text2parse.char_at(pars_pos.n));
        Ok((step(text2parse, pars_pos), captured))
    } else {
        Err(error(&pars_pos, ErrorKind::ClassMismatch, "expected a character of the class"))
    }
}

impl Atom {
    /// Matches the terminal at `pars_pos`: on success the position after the
    /// match and the text captured; else the error, with the input untouched.
    pub fn parse(&self, text2parse: &Text2Parse, pars_pos: Position) -> (r: Result<
        (Position, String),
        Error,
    >)
        requires
            pars_pos.n <= text2parse@.len(),
            pars_pos == position_at(text2parse@, pars_pos.n as int),
        ensures
            atom_result_is(text2parse@, r, eval_atom(text2parse@, self@, pars_pos.n as int)),
    {
        match self {
            Atom::Literal(lit) => parse_literal(text2parse, lit.as_str(), pars_pos),
            Atom::Match(class) => parse_match(text2parse, class, pars_pos),
            Atom::Dot => parse_dot(text2parse, pars_pos),
        }
    }
}

} // verus!
