//! The parser: from source text to the located syntax tree.
use vstd::prelude::*;
use vstd::string::StrSliceExecFns;
use vstd::string::StringExecFns;
use vstd::utf8::is_ascii_chars;

use crate::ast::{
    annotation_within, block_within, node_within, nodes_within, params_within, BinOp, Block,
    Literal, Name, Node, UnOp,
};
use crate::location::{Located, Location};
use crate::ty::{Binding, Ty};
use grammar::{
    failure, span, spec_args, spec_base_ty, spec_binary, spec_binary_rest, spec_binding,
    spec_block, spec_block_ends, spec_call, spec_cond, spec_cond_then, spec_fn, spec_fn_body,
    spec_fn_rec_def, spec_fn_tail, spec_is_let, spec_let, spec_name, spec_node, spec_number,
    spec_operand, spec_operator, spec_params, spec_params_rest, spec_parse, spec_primary,
    spec_refusal, spec_stmt, spec_stmts, spec_ty, spec_unary, MAX_TEXT,
};
use lexis::{
    at, digits_value, is_alpha, is_digit, keyword_at, name_starts, rest_len, run, skip, word2,
    word3, word4, word5, Class, Keyword,
};
use tree::{
    block_outcome, block_tree, lemma_nodes_tree_index, lemma_nodes_tree_push,
    lemma_params_tree_push, name_outcome, node_outcome, node_tree, nodes_outcome, nodes_tree,
    param_outcome, params_outcome, params_tree, proceeds, ty_outcome,
};

pub mod grammar;
pub mod lexis;
pub mod tree;

verus! {

/// What the parser looked for where it stopped.
#[derive(Debug, Clone, Copy, Eq, PartialEq, Structural)]
pub enum Expected {
    /// A character of the ASCII range: the language has no other.
    Ascii,
    /// An expression.
    Node,
    /// An identifier that is no keyword.
    Name,
    /// A type.
    Type,
    /// An integer that fits into 128 bits.
    Number,
    /// The keyword `do`.
    Do,
    /// The keyword `else`.
    Else,
    /// The keyword `end`.
    End,
    /// The sign `=`.
    Equals,
    /// The sign `:`.
    Colon,
    /// The sign `(`.
    OpenParen,
    /// The sign `)`.
    CloseParen,
    /// The end of the text.
    EndOfText,
    /// A text that is short enough for its positions to be counted.
    ShorterText,
}

/// A failure to parse, with the place in the text where the parser stopped.
#[derive(Debug, Clone, Copy, Eq, PartialEq)]
pub struct ParsingError {
    pub loc: Location,
    pub expected: Expected,
}

impl Expected {
    pub open spec fn spec_text(self) -> Seq<char> {
        match self {
            Expected::Ascii => "a character of the ASCII range"@,
            Expected::Node => "an expression"@,
            Expected::Name => "a name"@,
            Expected::Type => "a type"@,
            Expected::Number => "an integer of at most 128 bits"@,
            Expected::Do => "`do`"@,
            Expected::Else => "`else`"@,
            Expected::End => "`end`"@,
            Expected::Equals => "`=`"@,
            Expected::Colon => "`:`"@,
            Expected::OpenParen => "`(`"@,
            Expected::CloseParen => "`)`"@,
            Expected::EndOfText => "the end of the text"@,
            Expected::ShorterText => "a shorter text"@,
        }
    }

    /// What was looked for, in words.
    pub fn to_text(&self) -> (text: &'static str)
        ensures
            text@ == self.spec_text(),
    {
        match self {
            Expected::Ascii => "a character of the ASCII range",
            Expected::Node => "an expression",
            Expected::Name => "a name",
            Expected::Type => "a type",
            Expected::Number => "an integer of at most 128 bits",
            Expected::Do => "`do`",
            Expected::Else => "`else`",
            Expected::End => "`end`",
            Expected::Equals => "`=`",
            Expected::Colon => "`:`",
            Expected::OpenParen => "`(`",
            Expected::CloseParen => "`)`",
            Expected::EndOfText => "the end of the text",
            Expected::ShorterText => "a shorter text",
        }
    }
}

impl ParsingError {
    pub open spec fn spec_message(self) -> Seq<char> {
        "Expected "@ + self.expected.spec_text()
    }

    /// The error in words.
    pub fn message(&self) -> (text: String)
        ensures
            text@ == self.spec_message(),
    {
        let mut text = String::from_str("Expected ");
        text.append(self.expected.to_text());
        text
    }
}

/// The result of the parsing functions.
pub type ParsingResult<T> = Result<T, ParsingError>;

/// The failure to find what was expected at `pos`.
pub fn fail<T>(pos: usize, expected: Expected) -> (res: ParsingResult<T>)
    ensures
        res == failure::<T>(pos as int, expected),
{
    Err(ParsingError { loc: Location { start: pos, end: pos }, expected })
}

/// The range from `start` to `end`.
pub fn range(start: usize, end: usize) -> (loc: Location)
    ensures
        loc == span(start as int, end as int),
{
    Location { start, end }
}

/// A text that is being parsed.
pub struct Parser<'a> {
    text: &'a str,
    len: usize,
}

impl<'a> Parser<'a> {
    /// The text holds characters of the ASCII range only, and `len` of them.
    #[verifier::type_invariant]
    spec fn wf(&self) -> bool {
        is_ascii_chars(self.text@) && self.len == self.text@.len() && self.len <= MAX_TEXT
    }

    pub closed spec fn text(&self) -> Seq<char> {
        self.text@
    }

    pub closed spec fn spec_len(&self) -> usize {
        self.len
    }

    /// The number of characters of the text.
    #[verifier::when_used_as_spec(spec_len)]
    pub fn len(&self) -> (len: usize)
        ensures
            len == self.spec_len(),
            len == self.text().len(),
    {
        proof {
            use_type_invariant(self);
        }
        self.len
    }

    /// Takes a text up for parsing, unless it cannot be parsed at all.
    pub fn new(input: &'a str) -> (res: ParsingResult<Parser<'a>>)
        ensures
            match res {
                Ok(parser) => spec_refusal(input@) is None && parser.text() == input@,
                Err(error) => spec_refusal(input@) == Some(error) && error.loc.within(
                    input@.len(),
                ),
            },
    {
        let len = input.unicode_len();
        if !input.is_ascii() {
            let mut i: usize = 0;
            while i < len && Class::Ascii.holds(input.get_char(i))
                invariant
                    len == input@.len(),
                    i <= len,
                    i + run(input@, i as int, Class::Ascii) == run(input@, 0, Class::Ascii),
                decreases len - i,
            {
                i += 1;
            }
            return fail(i, Expected::Ascii);
        }
        if len > MAX_TEXT {
            return fail(0, Expected::ShorterText);
        }
        Ok(Parser { text: input, len })
    }

    /// The character at `pos`, and the null character where the text has none.
    pub fn at(&self, pos: usize) -> (c: char)
        ensures
            c == at(self.text(), pos as int),
    {
        proof {
            use_type_invariant(self);
        }
        if pos < self.len {
            self.text.get_ascii(pos) as char
        } else {
            '\0'
        }
    }

    /// The first position from `pos` on that holds no character of the class.
    pub fn skip(&self, pos: usize, class: Class) -> (end: usize)
        requires
            pos <= self.len(),
        ensures
            end == skip(self.text(), pos as int, class),
            pos <= end <= self.len(),
    {
        proof {
            use_type_invariant(self);
        }
        let mut i = pos;
        while i < self.len && class.holds(self.at(i))
            invariant
                self.wf(),
                pos <= i <= self.len,
                i + run(self.text@, i as int, class) == pos + run(self.text@, pos as int, class),
            decreases self.len - i,
        {
            i += 1;
        }
        i
    }

    pub fn word2(&self, pos: usize, a: char, b: char) -> (found: bool)
        requires
            pos <= self.len(),
        ensures
            found == word2(self.text(), pos as int, a, b),
    {
        proof {
            use_type_invariant(self);
        }
        self.at(pos) == a && self.at(pos + 1) == b && !Class::Ident.holds(self.at(pos + 2))
    }

    pub fn word3(&self, pos: usize, a: char, b: char, c: char) -> (found: bool)
        requires
            pos <= self.len(),
        ensures
            found == word3(self.text(), pos as int, a, b, c),
    {
        proof {
            use_type_invariant(self);
        }
        self.at(pos) == a && self.at(pos + 1) == b && self.at(pos + 2) == c
            && !Class::Ident.holds(self.at(pos + 3))
    }

    pub fn word4(&self, pos: usize, a: char, b: char, c: char, d: char) -> (found: bool)
        requires
            pos <= self.len(),
        ensures
            found == word4(self.text(), pos as int, a, b, c, d),
    {
        proof {
            use_type_invariant(self);
        }
        self.at(pos) == a && self.at(pos + 1) == b && self.at(pos + 2) == c && self.at(pos + 3)
            == d && !Class::Ident.holds(self.at(pos + 4))
    }

    pub fn word5(&self, pos: usize, a: char, b: char, c: char, d: char, e: char) -> (found: bool)
        requires
            pos <= self.len(),
        ensures
            found == word5(self.text(), pos as int, a, b, c, d, e),
    {
        proof {
            use_type_invariant(self);
        }
        self.at(pos) == a && self.at(pos + 1) == b && self.at(pos + 2) == c && self.at(pos + 3)
            == d && self.at(pos + 4) == e && !Class::Ident.holds(self.at(pos + 5))
    }

    /// The reserved word that stands at `pos`, if one does.
    pub fn keyword_at(&self, pos: usize) -> (found: Option<Keyword>)
        requires
            pos <= self.len(),
        ensures
            found == keyword_at(self.text(), pos as int),
            found is Some ==> pos + 2 <= self.len(),
            found == Some(Keyword::End) || found == Some(Keyword::Rec) ==> pos + 3 <= self.len(),
            found == Some(Keyword::Then) || found == Some(Keyword::Else) || found == Some(
                Keyword::True,
            ) || found == Some(Keyword::Unit) ==> pos + 4 <= self.len(),
            found == Some(Keyword::False) ==> pos + 5 <= self.len(),
    {
        proof {
            use_type_invariant(self);
        }
        if self.word2(pos, 'f', 'n') {
            Some(Keyword::Fn)
        } else if self.word3(pos, 'r', 'e', 'c') {
            Some(Keyword::Rec)
        } else if self.word2(pos, 'd', 'o') {
            Some(Keyword::Do)
        } else if self.word3(pos, 'e', 'n', 'd') {
            Some(Keyword::End)
        } else if self.word2(pos, 'i', 'f') {
            Some(Keyword::If)
        } else if self.word4(pos, 't', 'h', 'e', 'n') {
            Some(Keyword::Then)
        } else if self.word4(pos, 'e', 'l', 's', 'e') {
            Some(Keyword::Else)
        } else if self.word4(pos, 't', 'r', 'u', 'e') {
            Some(Keyword::True)
        } else if self.word5(pos, 'f', 'a', 'l', 's', 'e') {
            Some(Keyword::False)
        } else if self.word4(pos, 'u', 'n', 'i', 't') {
            Some(Keyword::Unit)
        } else {
            None
        }
    }

    /// True when a name starts at `pos`.
    pub fn name_starts(&self, pos: usize) -> (starts: bool)
        requires
            pos <= self.len(),
        ensures
            starts == name_starts(self.text(), pos as int),
            starts ==> pos < self.len(),
    {
        proof {
            use_type_invariant(self);
        }
        is_alpha(self.at(pos)) && self.keyword_at(pos).is_none()
    }

    /// Parses a name.
    pub fn name(&self, pos: usize) -> (res: ParsingResult<(Located<Name<'a>>, usize)>)
        requires
            pos <= self.len(),
        ensures
            name_outcome(res) == spec_name(self.text(), pos as int),
            proceeds(res, pos, self.len()),
            res matches Ok((name, _)) ==> name.loc.within(self.len() as nat),
            res matches Ok((_, end)) ==> pos < end,
    {
        proof {
            use_type_invariant(self);
        }
        if self.name_starts(pos) {
            let end = self.skip(pos, Class::Ident);
            let name = Name(self.text.substring_ascii(pos, end));
            Ok((Located { content: name, loc: range(pos, end) }, end))
        } else {
            fail(pos, Expected::Name)
        }
    }

    /// Parses a type.
    pub fn ty(&self, pos: usize) -> (res: ParsingResult<(Located<Ty>, usize)>)
        requires
            pos <= self.len(),
        ensures
            ty_outcome(res) == spec_ty(self.text(), pos as int),
            res matches Ok((_, end)) ==> pos < end,
            proceeds(res, pos, self.len()),
            res matches Ok((ty, _)) ==> ty.loc.within(self.len() as nat),
        decreases rest_len(self.text(), pos as int), 1int,
    {
        proof {
            use_type_invariant(self);
        }
        let (base, end) = self.base_ty(pos)?;
        let arrow = self.skip(end, Class::Space);
        if self.at(arrow) == '-' && self.at(arrow + 1) == '>' {
            let (ret, end) = self.ty(self.skip(arrow + 2, Class::Space))?;
            let content = Ty::Arrow(Box::new(base.content), Box::new(ret.content));
            Ok((Located { content, loc: range(pos, end) }, end))
        } else {
            Ok((base, end))
        }
    }

    /// Parses a type that is no function type, or one in brackets.
    pub fn base_ty(&self, pos: usize) -> (res: ParsingResult<(Located<Ty>, usize)>)
        requires
            pos <= self.len(),
        ensures
            ty_outcome(res) == spec_base_ty(self.text(), pos as int),
            res matches Ok((_, end)) ==> pos < end,
            proceeds(res, pos, self.len()),
            res matches Ok((ty, _)) ==> ty.loc.within(self.len() as nat),
        decreases rest_len(self.text(), pos as int), 0int,
    {
        proof {
            use_type_invariant(self);
        }
        if self.word3(pos, 'I', 'n', 't') {
            Ok((Located { content: Ty::Int, loc: range(pos, pos + 3) }, pos + 3))
        } else if self.word4(pos, 'B', 'o', 'o', 'l') {
            Ok((Located { content: Ty::Bool, loc: range(pos, pos + 4) }, pos + 4))
        } else if self.word4(pos, 'U', 'n', 'i', 't') {
            Ok((Located { content: Ty::Unit, loc: range(pos, pos + 4) }, pos + 4))
        } else if self.at(pos) == '(' {
            let (inner, end) = self.ty(self.skip(pos + 1, Class::Space))?;
            let close = self.skip(end, Class::Space);
            if self.at(close) == ')' {
                Ok((Located { content: inner.content, loc: range(pos, close + 1) }, close + 1))
            } else {
                fail(close, Expected::CloseParen)
            }
        } else {
            fail(pos, Expected::Type)
        }
    }

    /// Parses a parameter: a name with its type.
    pub fn binding(&self, pos: usize) -> (res: ParsingResult<(Located<Binding<'a>>, usize)>)
        requires
            pos <= self.len(),
        ensures
            param_outcome(res) == spec_binding(self.text(), pos as int),
            res matches Ok((_, end)) ==> pos < end,
            proceeds(res, pos, self.len()),
            res matches Ok((binding, _)) ==> binding.loc.within(self.len() as nat),
    {
        proof {
            use_type_invariant(self);
        }
        let (name, end) = self.name(pos)?;
        let colon = self.skip(end, Class::Space);
        if self.at(colon) == ':' {
            let (ty, end) = self.ty(self.skip(colon + 1, Class::Space))?;
            let binding = Binding { name: name.content, ty: ty.content };
            Ok((Located { content: binding, loc: range(pos, end) }, end))
        } else {
            fail(colon, Expected::Colon)
        }
    }

    /// Parses the parameters of a function, in their brackets.
    pub fn params(&self, pos: usize) -> (res: ParsingResult<(Vec<Located<Binding<'a>>>, usize)>)
        requires
            pos <= self.len(),
        ensures
            params_outcome(res) == spec_params(self.text(), pos as int),
            proceeds(res, pos, self.len()),
            res matches Ok((params, _)) ==> params_within(params@, self.len() as nat),
    {
        proof {
            use_type_invariant(self);
        }
        if self.at(pos) == '(' {
            let first = self.skip(pos + 1, Class::White);
            if self.at(first) == ')' {
                Ok((Vec::new(), first + 1))
            } else {
                self.params_rest(first, Vec::new())
            }
        } else {
            fail(pos, Expected::OpenParen)
        }
    }

    /// Parses the parameters from `pos` on, after those that were `found`.
    pub fn params_rest(&self, pos: usize, found: Vec<Located<Binding<'a>>>) -> (res: ParsingResult<
        (Vec<Located<Binding<'a>>>, usize),
    >)
        requires
            pos <= self.len(),
        ensures
            params_outcome(res) == spec_params_rest(
                self.text(),
                pos as int,
                params_tree(found@, found@.len() as int),
            ),
            proceeds(res, pos, self.len()),
            params_within(found@, self.len() as nat) ==> (res matches Ok((params, _))
                ==> params_within(params@, self.len() as nat)),
        decreases rest_len(self.text(), pos as int),
    {
        proof {
            use_type_invariant(self);
        }
        let (binding, end) = self.binding(pos)?;
        let mut found = found;
        proof {
            lemma_params_tree_push(found@, binding, found@.len() as int);
        }
        found.push(binding);
        let sign = self.skip(end, Class::White);
        if self.at(sign) == ',' {
            self.params_rest(self.skip(sign + 1, Class::White), found)
        } else if self.at(sign) == ')' {
            Ok((found, sign + 1))
        } else {
            fail(sign, Expected::CloseParen)
        }
    }

    /// Parses a number.
    pub fn number(&self, pos: usize) -> (res: ParsingResult<(Located<Node<'a>>, usize)>)
        requires
            pos <= self.len(),
        ensures
            node_outcome(res) == spec_number(self.text(), pos as int),
            proceeds(res, pos, self.len()),
            res matches Ok((_, end)) ==> pos < end,
            res matches Ok((node, _)) ==> node_within(node, self.len() as nat),
    {
        proof {
            use_type_invariant(self);
        }
        if !is_digit(self.at(pos)) {
            return fail(pos, Expected::Number);
        }
        let mut value: i128 = 0;
        let mut fits = true;
        let mut i = pos;
        while i < self.len && is_digit(self.at(i))
            invariant
                self.wf(),
                pos <= i <= self.len,
                i + run(self.text@, i as int, Class::Digit) == pos + run(
                    self.text@,
                    pos as int,
                    Class::Digit,
                ),
                fits ==> value == digits_value(self.text@, pos as int, i as int),
                !fits ==> digits_value(self.text@, pos as int, i as int) > i128::MAX,
            decreases self.len - i,
        {
            let digit = self.text.get_ascii(i) - 48;
            if fits {
                match value.checked_mul(10) {
                    Some(tens) => match tens.checked_add(digit as i128) {
                        Some(next) => {
                            value = next;
                        },
                        None => {
                            fits = false;
                        },
                    },
                    None => {
                        fits = false;
                    },
                }
            }
            i += 1;
        }
        if fits {
            Ok((Located { content: Node::Literal(Literal::Number(value)), loc: range(pos, i) }, i))
        } else {
            fail(pos, Expected::Number)
        }
    }

    /// The binary operator of the given level that stands at `pos`, with its width.
    pub fn operator(&self, pos: usize, level: u8) -> (found: Option<(BinOp, usize)>)
        requires
            pos <= self.len(),
        ensures
            match found {
                Some((op, width)) => spec_operator(self.text(), pos as int, level as nat) == Some(
                    (op, width as int),
                ) && 1 <= width <= 2 && pos + width <= self.len(),
                None => spec_operator(self.text(), pos as int, level as nat) is None,
            },
    {
        proof {
            use_type_invariant(self);
        }
        let first = self.at(pos);
        let second = self.at(pos + 1);
        if level == 1 {
            if first == '&' && second == '&' {
                Some((BinOp::And, 2))
            } else if first == '|' && second == '|' {
                Some((BinOp::Or, 2))
            } else {
                None
            }
        } else if level == 2 {
            if first == '<' && second == '=' {
                Some((BinOp::Lte, 2))
            } else if first == '>' && second == '=' {
                Some((BinOp::Gte, 2))
            } else if first == '=' && second == '=' {
                Some((BinOp::Eq, 2))
            } else if first == '!' && second == '=' {
                Some((BinOp::Neq, 2))
            } else if first == '<' && second != '<' {
                Some((BinOp::Lt, 1))
            } else if first == '>' && second != '>' {
                Some((BinOp::Gt, 1))
            } else {
                None
            }
        } else if level == 3 {
            if first == '>' && second == '>' {
                Some((BinOp::Shr, 2))
            } else if first == '<' && second == '<' {
                Some((BinOp::Shl, 2))
            } else if first == '&' && second != '&' {
                Some((BinOp::BitAnd, 1))
            } else if first == '|' && second != '|' {
                Some((BinOp::BitOr, 1))
            } else if first == '^' {
                Some((BinOp::BitXor, 1))
            } else {
                None
            }
        } else if level == 4 {
            if first == '+' {
                Some((BinOp::Add, 1))
            } else if first == '-' {
                Some((BinOp::Sub, 1))
            } else {
                None
            }
        } else if level == 5 {
            if first == '*' {
                Some((BinOp::Mul, 1))
            } else if first == '/' {
                Some((BinOp::Div, 1))
            } else if first == '%' {
                Some((BinOp::Rem, 1))
            } else {
                None
            }
        } else {
            None
        }
    }

    /// True when a `let` stands at `pos`.
    pub fn is_let(&self, pos: usize) -> (found: bool)
        requires
            pos <= self.len(),
        ensures
            found == spec_is_let(self.text(), pos as int),
    {
        proof {
            use_type_invariant(self);
        }
        if self.name_starts(pos) {
            let sign = self.skip(self.skip(pos, Class::Ident), Class::Space);
            self.at(sign) == ':' || (self.at(sign) == '=' && self.at(sign + 1) != '=')
        } else {
            false
        }
    }

    /// True when a block ends at `pos`.
    pub fn block_ends(&self, pos: usize) -> (ends: bool)
        requires
            pos <= self.len(),
        ensures
            ends == spec_block_ends(self.text(), pos as int),
    {
        proof {
            use_type_invariant(self);
        }
        if pos >= self.len {
            true
        } else {
            match self.keyword_at(pos) {
                Some(Keyword::Do) | Some(Keyword::Then) | Some(Keyword::Else) | Some(
                    Keyword::End,
                ) => true,
                _ => false,
            }
        }
    }

    /// Parses a block: the statements from `pos` up to the word, or the end
    /// of the text, that ends the block.
    pub fn block(&self, pos: usize) -> (res: ParsingResult<(Located<Block<'a>>, usize)>)
        requires
            pos <= self.len(),
        ensures
            block_outcome(res) == spec_block(self.text(), pos as int),
            proceeds(res, pos, self.len()),
            res matches Ok((block, _)) ==> block_within(block, self.len() as nat),
        decreases rest_len(self.text(), pos as int), 41int,
    {
        proof {
            use_type_invariant(self);
        }
        let (nodes, end) = self.stmts(pos, Vec::new())?;
        proof {
            lemma_nodes_tree_index(nodes@, nodes@.len() as int);
        }
        let loc = if nodes.len() == 0 {
            range(end, end)
        } else {
            nodes[0].loc + nodes[nodes.len() - 1].loc
        };
        Ok((Located { content: nodes, loc }, end))
    }

    /// Parses the statements from `pos` on, after those that were `found`.
    pub fn stmts(&self, pos: usize, found: Vec<Located<Node<'a>>>) -> (res: ParsingResult<
        (Vec<Located<Node<'a>>>, usize),
    >)
        requires
            pos <= self.len(),
        ensures
            nodes_outcome(res) == spec_stmts(
                self.text(),
                pos as int,
                nodes_tree(found@, found@.len() as int),
            ),
            proceeds(res, pos, self.len()),
            nodes_within(found@, self.len() as nat) ==> (res matches Ok((nodes, _))
                ==> nodes_within(nodes@, self.len() as nat)),
        decreases rest_len(self.text(), pos as int), 40int,
    {
        proof {
            use_type_invariant(self);
        }
        let start = self.skip(pos, Class::Gap);
        if self.block_ends(start) {
            return Ok((found, start));
        }
        let (stmt, end) = self.stmt(start)?;
        let mut found = found;
        proof {
            lemma_nodes_tree_push(found@, stmt, found@.len() as int);
        }
        found.push(stmt);
        self.stmts(end, found)
    }

    /// Parses a statement: a `let` or a node.
    pub fn stmt(&self, pos: usize) -> (res: ParsingResult<(Located<Node<'a>>, usize)>)
        requires
            pos <= self.len(),
        ensures
            node_outcome(res) == spec_stmt(self.text(), pos as int),
            proceeds(res, pos, self.len()),
            res matches Ok((_, end)) ==> pos < end,
            res matches Ok((node, _)) ==> node_within(node, self.len() as nat),
        decreases rest_len(self.text(), pos as int), 33int,
    {
        proof {
            use_type_invariant(self);
        }
        if self.is_let(pos) {
            self.let_bind(pos)
        } else {
            self.node(pos)
        }
    }

    /// Parses a `let`.
    pub fn let_bind(&self, pos: usize) -> (res: ParsingResult<(Located<Node<'a>>, usize)>)
        requires
            pos <= self.len(),
        ensures
            node_outcome(res) == spec_let(self.text(), pos as int),
            proceeds(res, pos, self.len()),
            res matches Ok((_, end)) ==> pos < end,
            res matches Ok((node, _)) ==> node_within(node, self.len() as nat),
        decreases rest_len(self.text(), pos as int), 32int,
    {
        proof {
            use_type_invariant(self);
        }
        let (name, end) = self.name(pos)?;
        let sign = self.skip(end, Class::Space);
        if self.at(sign) == ':' {
            let (ty, end) = self.ty(self.skip(sign + 1, Class::Space))?;
            let equals = self.skip(end, Class::Space);
            if self.at(equals) != '=' {
                return fail(equals, Expected::Equals);
            }
            let (value, end) = self.node(self.skip(equals + 1, Class::White))?;
            Ok(
                (
                    Located {
                        content: Node::LetBind(name, Some(ty), Box::new(value)),
                        loc: range(pos, end),
                    },
                    end,
                ),
            )
        } else if self.at(sign) == '=' {
            let (value, end) = self.node(self.skip(sign + 1, Class::White))?;
            Ok(
                (
                    Located {
                        content: Node::LetBind(name, None, Box::new(value)),
                        loc: range(pos, end),
                    },
                    end,
                ),
            )
        } else {
            fail(sign, Expected::Equals)
        }
    }

    /// Parses a node.
    pub fn node(&self, pos: usize) -> (res: ParsingResult<(Located<Node<'a>>, usize)>)
        requires
            pos <= self.len(),
        ensures
            node_outcome(res) == spec_node(self.text(), pos as int),
            proceeds(res, pos, self.len()),
            res matches Ok((_, end)) ==> pos < end,
            res matches Ok((node, _)) ==> node_within(node, self.len() as nat),
        decreases rest_len(self.text(), pos as int), 31int,
    {
        proof {
            use_type_invariant(self);
        }
        self.binary(pos, 1)
    }

    /// Parses the operand of an operator of the given level.
    pub fn operand(&self, pos: usize, level: u8) -> (res: ParsingResult<
        (Located<Node<'a>>, usize),
    >)
        requires
            pos <= self.len(),
        ensures
            node_outcome(res) == spec_operand(self.text(), pos as int, level as nat),
            proceeds(res, pos, self.len()),
            res matches Ok((_, end)) ==> pos < end,
            res matches Ok((node, _)) ==> node_within(node, self.len() as nat),
        decreases rest_len(self.text(), pos as int), 29 - 2 * level,
    {
        proof {
            use_type_invariant(self);
        }
        if 1 <= level && level < 5 {
            self.binary(pos, level + 1)
        } else if level == 5 {
            self.unary(pos)
        } else {
            fail(pos, Expected::Node)
        }
    }

    /// Parses operands of the given level with the operators of that level between them.
    pub fn binary(&self, pos: usize, level: u8) -> (res: ParsingResult<(Located<Node<'a>>, usize)>)
        requires
            pos <= self.len(),
        ensures
            node_outcome(res) == spec_binary(self.text(), pos as int, level as nat),
            proceeds(res, pos, self.len()),
            res matches Ok((_, end)) ==> pos < end,
            res matches Ok((node, _)) ==> node_within(node, self.len() as nat),
        decreases rest_len(self.text(), pos as int), 30 - 2 * level,
    {
        proof {
            use_type_invariant(self);
        }
        if 1 <= level && level <= 5 {
            let (left, end) = self.operand(pos, level)?;
            self.binary_rest(left, end, level)
        } else {
            fail(pos, Expected::Node)
        }
    }

    /// Parses the operators of the given level, and their right operands,
    /// that follow the operand `left`.
    pub fn binary_rest(&self, left: Located<Node<'a>>, pos: usize, level: u8) -> (res:
        ParsingResult<(Located<Node<'a>>, usize)>)
        requires
            pos <= self.len(),
        ensures
            node_outcome(res) == spec_binary_rest(
                self.text(),
                node_tree(left),
                pos as int,
                level as nat,
            ),
            proceeds(res, pos, self.len()),
            node_within(left, self.len() as nat) ==> (res matches Ok((node, _)) ==> node_within(
                node,
                self.len() as nat,
            )),
        decreases rest_len(self.text(), pos as int), 0int,
    {
        proof {
            use_type_invariant(self);
        }
        let sign = self.skip(pos, Class::Space);
        match self.operator(sign, level) {
            Some((op, width)) => {
                let (right, end) = self.operand(self.skip(sign + width, Class::White), level)?;
                let loc = left.loc + right.loc;
                let joined = Located {
                    content: Node::BinaryOp(op, Box::new(left), Box::new(right)),
                    loc,
                };
                self.binary_rest(joined, end, level)
            },
            None => Ok((left, pos)),
        }
    }

    /// Parses a node that operators of two operands are put between.
    pub fn unary(&self, pos: usize) -> (res: ParsingResult<(Located<Node<'a>>, usize)>)
        requires
            pos <= self.len(),
        ensures
            node_outcome(res) == spec_unary(self.text(), pos as int),
            proceeds(res, pos, self.len()),
            res matches Ok((_, end)) ==> pos < end,
            res matches Ok((node, _)) ==> node_within(node, self.len() as nat),
        decreases rest_len(self.text(), pos as int), 10int,
    {
        proof {
            use_type_invariant(self);
        }
        let sign = self.at(pos);
        if sign == '-' || sign == '!' {
            let op = if sign == '-' {
                UnOp::Neg
            } else {
                UnOp::Not
            };
            let (operand, end) = self.unary(self.skip(pos + 1, Class::Space))?;
            Ok(
                (
                    Located { content: Node::UnaryOp(op, Box::new(operand)), loc: range(pos, end) },
                    end,
                ),
            )
        } else {
            self.primary(pos)
        }
    }

    /// Parses a node that has no operator at its outside.
    pub fn primary(&self, pos: usize) -> (res: ParsingResult<(Located<Node<'a>>, usize)>)
        requires
            pos <= self.len(),
        ensures
            node_outcome(res) == spec_primary(self.text(), pos as int),
            proceeds(res, pos, self.len()),
            res matches Ok((_, end)) ==> pos < end,
            res matches Ok((node, _)) ==> node_within(node, self.len() as nat),
        decreases rest_len(self.text(), pos as int), 9int,
    {
        proof {
            use_type_invariant(self);
        }
        if self.at(pos) == '(' {
            let (inner, end) = self.node(self.skip(pos + 1, Class::White))?;
            let close = self.skip(end, Class::White);
            if self.at(close) == ')' {
                Ok((Located { content: inner.content, loc: range(pos, close + 1) }, close + 1))
            } else {
                fail(close, Expected::CloseParen)
            }
        } else if is_digit(self.at(pos)) {
            self.number(pos)
        } else {
            match self.keyword_at(pos) {
                Some(Keyword::True) => Ok(
                    (
                        Located {
                            content: Node::Literal(Literal::Bool(true)),
                            loc: range(pos, pos + 4),
                        },
                        pos + 4,
                    ),
                ),
                Some(Keyword::False) => Ok(
                    (
                        Located {
                            content: Node::Literal(Literal::Bool(false)),
                            loc: range(pos, pos + 5),
                        },
                        pos + 5,
                    ),
                ),
                Some(Keyword::Unit) => Ok(
                    (
                        Located { content: Node::Literal(Literal::Unit), loc: range(pos, pos + 4) },
                        pos + 4,
                    ),
                ),
                Some(Keyword::If) => self.cond(pos),
                Some(Keyword::Fn) => self.fn_def(pos),
                Some(_) => fail(pos, Expected::Node),
                None => match self.name(pos) {
                    Ok((name, end)) => {
                        let open = self.skip(end, Class::Space);
                        if self.at(open) == '(' {
                            let first = self.skip(open + 1, Class::White);
                            if self.at(first) == ')' {
                                let args: Vec<Located<Node<'a>>> = Vec::new();
                                assert(nodes_tree(args@, 0) == Seq::<Located<tree::Tree>>::empty());
                                assert(nodes_within(args@, self.len as nat));
                                Ok(
                                    (
                                        Located {
                                            content: Node::Call(name, args),
                                            loc: range(pos, first + 1),
                                        },
                                        first + 1,
                                    ),
                                )
                            } else {
                                let none: Vec<Located<Node<'a>>> = Vec::new();
                                assert(nodes_within(none@, self.len as nat));
                                let (args, end) = self.args(first, none)?;
                                Ok(
                                    (
                                        Located {
                                            content: Node::Call(name, args),
                                            loc: range(pos, end),
                                        },
                                        end,
                                    ),
                                )
                            }
                        } else {
                            Ok((Located { content: Node::Name(name.content), loc: name.loc }, end))
                        }
                    },
                    Err(_) => fail(pos, Expected::Node),
                },
            }
        }
    }

    /// Parses the arguments of a call from `pos` on, after those that were `found`.
    pub fn args(&self, pos: usize, found: Vec<Located<Node<'a>>>) -> (res: ParsingResult<
        (Vec<Located<Node<'a>>>, usize),
    >)
        requires
            pos <= self.len(),
        ensures
            nodes_outcome(res) == spec_args(
                self.text(),
                pos as int,
                nodes_tree(found@, found@.len() as int),
            ),
            proceeds(res, pos, self.len()),
            nodes_within(found@, self.len() as nat) ==> (res matches Ok((nodes, _))
                ==> nodes_within(nodes@, self.len() as nat)),
        decreases rest_len(self.text(), pos as int), 40int,
    {
        proof {
            use_type_invariant(self);
        }
        let (arg, end) = self.node(pos)?;
        let mut found = found;
        proof {
            lemma_nodes_tree_push(found@, arg, found@.len() as int);
        }
        found.push(arg);
        let sign = self.skip(end, Class::White);
        if self.at(sign) == ',' {
            self.args(self.skip(sign + 1, Class::White), found)
        } else if self.at(sign) == ')' {
            Ok((found, sign + 1))
        } else {
            fail(sign, Expected::CloseParen)
        }
    }

    /// Parses a conditional.
    pub fn cond(&self, pos: usize) -> (res: ParsingResult<(Located<Node<'a>>, usize)>)
        requires
            pos <= self.len(),
        ensures
            node_outcome(res) == spec_cond(self.text(), pos as int),
            proceeds(res, pos, self.len()),
            res matches Ok((_, end)) ==> pos < end,
            res matches Ok((node, _)) ==> node_within(node, self.len() as nat),
        decreases rest_len(self.text(), pos as int), 8int,
    {
        proof {
            use_type_invariant(self);
        }
        match self.keyword_at(pos) {
            Some(Keyword::If) => {},
            _ => {
                return fail(pos, Expected::Node);
            },
        }
        let (condition, at_do) = self.block(pos + 2)?;
        match self.keyword_at(at_do) {
            Some(Keyword::Then) => {
                return self.cond_then(pos, condition, at_do);
            },
            Some(Keyword::Do) => {},
            _ => {
                return fail(at_do, Expected::Do);
            },
        }
        let (then_block, at_else) = self.block(at_do + 2)?;
        match self.keyword_at(at_else) {
            Some(Keyword::Else) => {},
            _ => {
                return fail(at_else, Expected::Else);
            },
        }
        let (else_block, at_end) = self.block(at_else + 4)?;
        match self.keyword_at(at_end) {
            Some(Keyword::End) => {},
            _ => {
                return fail(at_end, Expected::End);
            },
        }
        Ok(
            (
                Located {
                    content: Node::Cond(condition, then_block, else_block),
                    loc: range(pos, at_end + 3),
                },
                at_end + 3,
            ),
        )
    }

    /// Parses a conditional that starts at `start`, from its `then` on.
    pub fn cond_then(&self, start: usize, condition: Located<Block<'a>>, pos: usize) -> (res:
        ParsingResult<(Located<Node<'a>>, usize)>)
        requires
            pos <= self.len(),
        ensures
            node_outcome(res) == spec_cond_then(
                self.text(),
                start as int,
                block_tree(condition),
                pos as int,
            ),
            proceeds(res, pos, self.len()),
            start <= pos && block_within(condition, self.len() as nat) ==> (
            res matches Ok((node, _)) ==> node_within(node, self.len() as nat)),
        decreases rest_len(self.text(), pos as int), 7int,
    {
        proof {
            use_type_invariant(self);
        }
        match self.keyword_at(pos) {
            Some(Keyword::Then) => {},
            _ => {
                return fail(pos, Expected::Do);
            },
        }
        let (then_block, at_else) = self.block(pos + 4)?;
        match self.keyword_at(at_else) {
            Some(Keyword::Else) => {},
            _ => {
                return fail(at_else, Expected::Else);
            },
        }
        let (node, end) = self.node(self.skip(at_else + 4, Class::White))?;
        let loc = node.loc;
        let ghost else_tree = node_tree(node);
        let ghost inside = node_within(node, self.len as nat);
        let mut nodes: Vec<Located<Node<'a>>> = Vec::new();
        nodes.push(node);
        proof {
            assert(nodes_tree(nodes@, 0) == Seq::<Located<tree::Tree>>::empty());
            assert(nodes_tree(nodes@, 1) == Seq::<Located<tree::Tree>>::empty().push(else_tree));
            assert(inside ==> nodes_within(nodes@, self.len as nat));
        }
        let else_block = Located { content: nodes, loc };
        Ok(
            (
                Located {
                    content: Node::Cond(condition, then_block, else_block),
                    loc: range(start, end),
                },
                end,
            ),
        )
    }

    /// Parses a function definition.
    pub fn fn_def(&self, pos: usize) -> (res: ParsingResult<(Located<Node<'a>>, usize)>)
        requires
            pos <= self.len(),
        ensures
            node_outcome(res) == spec_fn(self.text(), pos as int),
            proceeds(res, pos, self.len()),
            res matches Ok((_, end)) ==> pos < end,
            res matches Ok((node, _)) ==> node_within(node, self.len() as nat),
        decreases rest_len(self.text(), pos as int), 8int,
    {
        proof {
            use_type_invariant(self);
        }
        match self.keyword_at(pos) {
            Some(Keyword::Fn) => {},
            _ => {
                return fail(pos, Expected::Node);
            },
        }
        let after = self.skip(pos + 2, Class::Space);
        let marked = match self.keyword_at(after) {
            Some(Keyword::Rec) => true,
            _ => false,
        };
        if marked {
            let (name, end) = self.name(self.skip(after + 3, Class::Space))?;
            self.fn_tail(pos, Some(name), true, self.skip(end, Class::Space))
        } else if self.name_starts(after) {
            let (name, end) = self.name(after)?;
            self.fn_tail(pos, Some(name), false, self.skip(end, Class::Space))
        } else {
            self.fn_tail(pos, None, false, after)
        }
    }

    /// Parses a function definition from its parameters on.
    pub fn fn_tail(
        &self,
        start: usize,
        name: Option<Located<Name<'a>>>,
        rec: bool,
        pos: usize,
    ) -> (res: ParsingResult<(Located<Node<'a>>, usize)>)
        requires
            pos <= self.len(),
        ensures
            node_outcome(res) == spec_fn_tail(
                self.text(),
                start as int,
                match name {
                    Some(name) => Some(tree::name_tree(name)),
                    None => None,
                },
                rec,
                pos as int,
            ),
            proceeds(res, pos, self.len()),
            start <= pos && (name is Some ==> name->0.loc.within(self.len() as nat)) ==> (
            res matches Ok((node, _)) ==> node_within(node, self.len() as nat)),
        decreases rest_len(self.text(), pos as int), 7int,
    {
        proof {
            use_type_invariant(self);
        }
        let (params, end) = self.params(pos)?;
        let colon = self.skip(end, Class::Space);
        if self.at(colon) == ':' {
            let (ty, end) = self.ty(self.skip(colon + 1, Class::Space))?;
            self.fn_body(start, name, rec, params, Some(ty), self.skip(end, Class::White))
        } else if rec {
            fail(colon, Expected::Colon)
        } else {
            self.fn_body(start, name, rec, params, None, self.skip(end, Class::White))
        }
    }

    /// Parses a function definition from its `do` on.
    pub fn fn_body(
        &self,
        start: usize,
        name: Option<Located<Name<'a>>>,
        rec: bool,
        params: Vec<Located<Binding<'a>>>,
        ret: Option<Located<Ty>>,
        pos: usize,
    ) -> (res: ParsingResult<(Located<Node<'a>>, usize)>)
        requires
            pos <= self.len(),
        ensures
            node_outcome(res) == spec_fn_body(
                self.text(),
                start as int,
                match name {
                    Some(name) => Some(tree::name_tree(name)),
                    None => None,
                },
                rec,
                params_tree(params@, params@.len() as int),
                ret,
                pos as int,
            ),
            proceeds(res, pos, self.len()),
            start <= pos && (name is Some ==> name->0.loc.within(self.len() as nat))
                && params_within(params@, self.len() as nat) && annotation_within(
                ret,
                self.len() as nat,
            ) ==> (res matches Ok((node, _)) ==> node_within(node, self.len() as nat)),
        decreases rest_len(self.text(), pos as int), 6int,
    {
        proof {
            use_type_invariant(self);
        }
        match self.keyword_at(pos) {
            Some(Keyword::Do) => {},
            _ => {
                return fail(pos, Expected::Do);
            },
        }
        let (body, at_end) = self.block(pos + 2)?;
        match self.keyword_at(at_end) {
            Some(Keyword::End) => {},
            _ => {
                return fail(at_end, Expected::End);
            },
        }
        let loc = range(start, at_end + 3);
        let content = match (rec, name, ret) {
            (true, Some(name), Some(ret)) => Node::FnRecDef(name, params, body, ret),
            (_, name, ret) => Node::FnDef(name, params, body, ret),
        };
        Ok((Located { content, loc }, at_end + 3))
    }
}

/// Parses a call: a name, and arguments in brackets behind it.
pub fn call<'a>(parser: &Parser<'a>, pos: usize) -> (res: ParsingResult<
    (Located<Node<'a>>, usize),
>)
    requires
        pos <= parser.len(),
    ensures
        node_outcome(res) == spec_call(parser.text(), pos as int),
        proceeds(res, pos, parser.len()),
        res matches Ok((node, _)) ==> node_within(node, parser.len() as nat),
{
    proof {
        use_type_invariant(parser);
    }
    if !parser.name_starts(pos) {
        return fail(pos, Expected::Name);
    }
    let open = parser.skip(parser.skip(pos, Class::Ident), Class::Space);
    if parser.at(open) == '(' {
        parser.primary(pos)
    } else {
        fail(open, Expected::OpenParen)
    }
}

/// Parses the definition of a function that is marked as recursive. Its
/// return type must be written down.
pub fn fn_rec_def<'a>(parser: &Parser<'a>, pos: usize) -> (res: ParsingResult<
    (Located<Node<'a>>, usize),
>)
    requires
        pos <= parser.len(),
    ensures
        node_outcome(res) == spec_fn_rec_def(parser.text(), pos as int),
        proceeds(res, pos, parser.len()),
        res matches Ok((node, _)) ==> node_within(node, parser.len() as nat),
{
    proof {
        use_type_invariant(parser);
    }
    match parser.keyword_at(pos) {
        Some(Keyword::Fn) => {},
        _ => {
            return fail(pos, Expected::Node);
        },
    }
    let after = parser.skip(pos + 2, Class::Space);
    match parser.keyword_at(after) {
        Some(Keyword::Rec) => parser.fn_def(pos),
        _ => fail(after, Expected::Node),
    }
}

/// Parses a program.
pub fn parse<'a>(input: &'a str) -> (res: ParsingResult<Located<Block<'a>>>)
    ensures
        match res {
            Ok(block) => spec_parse(input@) == Ok::<_, ParsingError>(block_tree(block))
                && block_within(block, input@.len()),
            Err(error) => spec_parse(input@) == Err::<Located<Seq<Located<tree::Tree>>>, _>(error)
                && error.loc.within(input@.len()),
        },
{
    let parser = Parser::new(input)?;
    let len = parser.len();
    let (block, end) = parser.block(0)?;
    if end >= len {
        Ok(block)
    } else {
        fail(end, Expected::EndOfText)
    }
}

} // verus!
