//! The lexical side of the grammar: the classes of characters, runs of them,
//! and the words that are reserved.
use vstd::prelude::*;

verus! {

/// The character of the text at `pos`, and the null character where the text has none.
pub open spec fn at(text: Seq<char>, pos: int) -> char {
    if 0 <= pos < text.len() {
        text[pos]
    } else {
        '\0'
    }
}

/// The classes of characters that can come in runs.
#[derive(Debug, Clone, Copy, PartialEq, Eq, Structural)]
pub enum Class {
    /// Blanks and tabs.
    Space,
    /// Blanks, tabs and line ends.
    White,
    /// What may stand between two statements: white space and semicolons.
    Gap,
    /// Letters, digits and the underscore.
    Ident,
    /// The decimal digits.
    Digit,
    /// The characters of the ASCII range.
    Ascii,
}

pub open spec fn spec_is_alpha(c: char) -> bool {
    ('a' <= c <= 'z') || ('A' <= c <= 'Z') || c == '_'
}

pub open spec fn spec_is_digit(c: char) -> bool {
    '0' <= c <= '9'
}

impl Class {
    /// True when the character belongs to the class.
    pub open spec fn spec_holds(self, c: char) -> bool {
        match self {
            Class::Space => c == ' ' || c == '\t',
            Class::White => c == ' ' || c == '\t' || c == '\n' || c == '\r',
            Class::Gap => c == ' ' || c == '\t' || c == '\n' || c == '\r' || c == ';',
            Class::Ident => spec_is_alpha(c) || spec_is_digit(c),
            Class::Digit => spec_is_digit(c),
            Class::Ascii => c <= '\u{7f}',
        }
    }

    pub fn holds(self, c: char) -> (held: bool)
        ensures
            held == self.spec_holds(c),
    {
        match self {
            Class::Space => c == ' ' || c == '\t',
            Class::White => c == ' ' || c == '\t' || c == '\n' || c == '\r',
            Class::Gap => c == ' ' || c == '\t' || c == '\n' || c == '\r' || c == ';',
            Class::Ident => is_alpha(c) || is_digit(c),
            Class::Digit => is_digit(c),
            Class::Ascii => c <= '\u{7f}',
        }
    }
}

pub fn is_alpha(c: char) -> (alpha: bool)
    ensures
        alpha == spec_is_alpha(c),
{
    ('a' <= c && c <= 'z') || ('A' <= c && c <= 'Z') || c == '_'
}

pub fn is_digit(c: char) -> (digit: bool)
    ensures
        digit == spec_is_digit(c),
{
    '0' <= c && c <= '9'
}

/// The number of positions from `pos` to the end of the text.
pub open spec fn rest_len(text: Seq<char>, pos: int) -> nat {
    if pos <= text.len() {
        (text.len() - pos) as nat
    } else {
        0
    }
}

/// The number of characters of the class that stand in a row from `pos` on.
pub open spec fn run(text: Seq<char>, pos: int, class: Class) -> nat
    decreases text.len() - pos,
{
    if 0 <= pos < text.len() && class.spec_holds(at(text, pos)) {
        1 + run(text, pos + 1, class)
    } else {
        0
    }
}

/// The first position from `pos` on that holds no character of the class.
pub open spec fn skip(text: Seq<char>, pos: int, class: Class) -> int {
    pos + run(text, pos, class)
}

/// True when the characters `a`, `b` stand at `pos` and no character of an identifier follows them.
pub open spec fn word2(text: Seq<char>, pos: int, a: char, b: char) -> bool {
    at(text, pos) == a && at(text, pos + 1) == b && !Class::Ident.spec_holds(
        at(text, pos + 2),
    )
}

pub open spec fn word3(text: Seq<char>, pos: int, a: char, b: char, c: char) -> bool {
    at(text, pos) == a && at(text, pos + 1) == b && at(text, pos + 2) == c
        && !Class::Ident.spec_holds(at(text, pos + 3))
}

pub open spec fn word4(text: Seq<char>, pos: int, a: char, b: char, c: char, d: char) -> bool {
    at(text, pos) == a && at(text, pos + 1) == b && at(text, pos + 2) == c && at(
        text,
        pos + 3,
    ) == d && !Class::Ident.spec_holds(at(text, pos + 4))
}

pub open spec fn word5(text: Seq<char>, pos: int, a: char, b: char, c: char, d: char, e: char) -> bool {
    at(text, pos) == a && at(text, pos + 1) == b && at(text, pos + 2) == c && at(
        text,
        pos + 3,
    ) == d && at(text, pos + 4) == e && !Class::Ident.spec_holds(at(text, pos + 5))
}

/// The reserved words.
#[derive(Debug, Clone, Copy, PartialEq, Eq, Structural)]
pub enum Keyword {
    Fn,
    Rec,
    Do,
    End,
    If,
    Then,
    Else,
    True,
    False,
    Unit,
}

/// The reserved word that stands at `pos`, if one does.
pub open spec fn keyword_at(text: Seq<char>, pos: int) -> Option<Keyword> {
    if word2(text, pos, 'f', 'n') {
        Some(Keyword::Fn)
    } else if word3(text, pos, 'r', 'e', 'c') {
        Some(Keyword::Rec)
    } else if word2(text, pos, 'd', 'o') {
        Some(Keyword::Do)
    } else if word3(text, pos, 'e', 'n', 'd') {
        Some(Keyword::End)
    } else if word2(text, pos, 'i', 'f') {
        Some(Keyword::If)
    } else if word4(text, pos, 't', 'h', 'e', 'n') {
        Some(Keyword::Then)
    } else if word4(text, pos, 'e', 'l', 's', 'e') {
        Some(Keyword::Else)
    } else if word4(text, pos, 't', 'r', 'u', 'e') {
        Some(Keyword::True)
    } else if word5(text, pos, 'f', 'a', 'l', 's', 'e') {
        Some(Keyword::False)
    } else if word4(text, pos, 'u', 'n', 'i', 't') {
        Some(Keyword::Unit)
    } else {
        None
    }
}

/// True when a name starts at `pos`: a letter or an underscore, at the start
/// of a word that is not reserved.
pub open spec fn name_starts(text: Seq<char>, pos: int) -> bool {
    spec_is_alpha(at(text, pos)) && keyword_at(text, pos) is None
}

/// The value of the decimal digits `text[from..to]`.
pub open spec fn digits_value(text: Seq<char>, from: int, to: int) -> nat
    decreases to - from,
{
    if from < to {
        digits_value(text, from, to - 1) * 10 + (at(text, to - 1) as u8 - 48) as nat
    } else {
        0
    }
}

} // verus!
