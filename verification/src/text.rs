//! Input text as a sequence of characters, and positions in it.

use vstd::prelude::*;

verus! {

/// A place in the input text: `n` characters from its start, on line `row`,
/// `col` characters after the start of that line. All three count from zero.
#[derive(Clone, Copy, Debug, PartialEq, Eq, Structural)]
pub struct Position {
    pub n: usize,
    pub row: usize,
    pub col: usize,
}

/// The number of line feeds among the first `n` characters of `text`.
pub open spec fn row_at(text: Seq<char>, n: int) -> int
    decreases n,
{
    if n <= 0 {
        0
    } else {
        row_at(text, n - 1) + if text[n - 1] == '\n' {
            1int
        } else {
            0int
        }
    }
}

/// The number of characters between the last line feed before offset `n` and
/// offset `n` itself (all of the first `n` characters if none is a line feed).
pub open spec fn col_at(text: Seq<char>, n: int) -> int
    decreases n,
{
    if n <= 0 {
        0
    } else if text[n - 1] == '\n' {
        0
    } else {
        col_at(text, n - 1) + 1
    }
}

/// The position that a cursor has after reading the first `n` characters of `text`.
pub open spec fn position_at(text: Seq<char>, n: int) -> Position {
    Position { n: n as usize, row: row_at(text, n) as usize, col: col_at(text, n) as usize }
}

/// Line and column never exceed the offset.
pub proof fn lemma_row_col_bounds(text: Seq<char>, n: int)
    requires
        0 <= n,
    ensures
        0 <= row_at(text, n) <= n,
        0 <= col_at(text, n) <= n,
    decreases n,
{
    if n > 0 {
        lemma_row_col_bounds(text, n - 1);
    }
}

/// Offsets order positions of one text: a position is fixed by its offset.
pub proof fn lemma_position_offset(text: Seq<char>, n: int)
    requires
        0 <= n <= usize::MAX,
    ensures
        position_at(text, n).n == n,
        position_at(text, n).row == row_at(text, n),
        position_at(text, n).col == col_at(text, n),
{
    lemma_row_col_bounds(text, n);
}

impl Position {
    /// The position before the first character.
    pub fn start() -> (pos: Position)
        ensures
            pos.n == 0,
            pos.row == 0,
            pos.col == 0,
            forall|text: Seq<char>| pos == #[trigger] position_at(text, 0),
    {
        Position { n: 0, row: 0, col: 0 }
    }

    /// The position after reading `c` at this position: a line feed starts a new
    /// line at column zero, any other character moves one column on.
    pub fn advance(self, c: char) -> (pos: Position)
        requires
            self.n < usize::MAX,
            self.row < usize::MAX,
            self.col < usize::MAX,
        ensures
            pos.n == self.n + 1,
            pos.row == if c == '\n' { self.row + 1 } else { self.row as int },
            pos.col == if c == '\n' { 0 } else { self.col + 1 },
    {
        if c == '\n' {
            Position { n: self.n + 1, row: self.row + 1, col: 0 }
        } else {
            Position { n: self.n + 1, row: self.row, col: self.col + 1 }
        }
    }

    /// Positions are ordered by their offset.
    pub fn is_before(&self, other: &Position) -> (b: bool)
        ensures
            b == (self.n < other.n),
    {
        self.n < other.n
    }
}

/// The input text, held so that the character at an offset is found in constant time.
#[derive(Debug)]
pub struct Text2Parse {
    string: String,
    chars: Vec<char>,
}

impl View for Text2Parse {
    type V = Seq<char>;

    closed spec fn view(&self) -> Seq<char> {
        self.chars@
    }
}

impl Text2Parse {
    #[verifier::type_invariant]
    spec fn consistent(self) -> bool {
        self.chars@ == self.string@
    }

    /// The text `txt`, ready to be parsed.
    pub fn new(txt: &str) -> (text: Text2Parse)
        ensures
            text@ == txt@,
    {
        Text2Parse { string: txt.to_owned(), chars: chars_of(txt) }
    }

    /// The text as a string.
    pub fn string(&self) -> (s: &String)
        ensures
            s@ == self@,
    {
        proof {
            use_type_invariant(self);
        }
        &self.string
    }

    /// The length of a text fits in `usize`.
    pub proof fn lemma_len_fits(&self)
        ensures
            self@.len() <= usize::MAX,
    {
        assert(self.chars@.len() == self.chars.len());
    }

    /// The number of characters of the text.
    pub fn len(&self) -> (n: usize)
        ensures
            n == self@.len(),
    {
        self.chars.len()
    }

    /// The character at offset `i`.
    pub fn char_at(&self, i: usize) -> (c: char)
        requires
            i < self@.len(),
        ensures
            c == self@[i as int],
    {
        self.chars[i]
    }
}

/// The text `txt`, ready to be parsed.
pub fn text2parse(txt: &str) -> (text: Text2Parse)
    ensures
        text@ == txt@,
{
    Text2Parse::new(txt)
}

/// Reading the character at offset `pos.n` takes the cursor from
/// `position_at(text, pos.n)` to `position_at(text, pos.n + 1)`.
pub(crate) fn step(text: &Text2Parse, pos: Position) -> (next: Position)
    requires
        pos.n < text@.len(),
        pos == position_at(text@, pos.n as int),
    ensures
        next == position_at(text@, pos.n + 1),
{
    proof {
        text.lemma_len_fits();
        lemma_row_col_bounds(text@, pos.n as int);
        lemma_row_col_bounds(text@, pos.n + 1);
    }
    pos.advance(text.char_at(pos.n))
}

/// `String::push` of std: the string afterwards is the string before with
/// `ch` added at its end.
pub assume_specification[ String::push ](s: &mut String, ch: char)
    ensures
        final(s)@ == old(s)@.push(ch),
;

/// `==` on `str` of std, called as `a.eq(b)`: two strings are equal iff they
/// hold the same characters in the same order.
pub assume_specification[ <str as PartialEq>::eq ](a: &str, b: &str) -> (same: bool)
    ensures
        same == (a@ == b@),
;

/// The character of the decimal digit `d`.
pub open spec fn digit(d: int) -> char {
    if d == 0 {
        '0'
    } else if d == 1 {
        '1'
    } else if d == 2 {
        '2'
    } else if d == 3 {
        '3'
    } else if d == 4 {
        '4'
    } else if d == 5 {
        '5'
    } else if d == 6 {
        '6'
    } else if d == 7 {
        '7'
    } else if d == 8 {
        '8'
    } else {
        '9'
    }
}

/// The number `n` written in decimal digits, without leading zeros.
pub open spec fn decimal(n: nat) -> Seq<char>
    decreases n,
{
    if n < 10 {
        seq![digit(n as int)]
    } else {
        decimal(n / 10).push(digit((n % 10) as int))
    }
}

fn digit_char(d: usize) -> (c: char)
    requires
        d < 10,
    ensures
        c == digit(d as int),
{
    if d == 0 {
        '0'
    } else if d == 1 {
        '1'
    } else if d == 2 {
        '2'
    } else if d == 3 {
        '3'
    } else if d == 4 {
        '4'
    } else if d == 5 {
        '5'
    } else if d == 6 {
        '6'
    } else if d == 7 {
        '7'
    } else if d == 8 {
        '8'
    } else {
        '9'
    }
}

/// Adds the decimal digits of `n` at the end of `out`.
pub(crate) fn push_decimal(out: &mut String, n: usize)
    ensures
        final(out)@ == old(out)@ + decimal(n as nat),
    decreases n,
{
    if n < 10 {
        out.push(digit_char(n));
        assert(out@ =~= old(out)@ + decimal(n as nat));
    } else {
        push_decimal(out, n / 10);
        out.push(digit_char(n % 10));
        assert(out@ =~= old(out)@ + decimal(n as nat));
    }
}

/// The characters of `s`, in order.
pub(crate) fn chars_of(s: &str) -> (v: Vec<char>)
    ensures
        v@ == s@,
{
    let mut v: Vec<char> = Vec::new();
    for c in it: s.chars()
        invariant
            v@ == it.seq().take(it.index() as int),
    {
        v.push(c);
    }
    v
}

} // verus!
