//! The grammar, as functions from a text and a position in it to the tree
//! that stands there and the position behind it.
//!
//! ```text
//! program  = block
//! block    = { statement }          statements are set apart by white space or `;`, and a block
//!                                   ends at `do`, `then`, `else`, `end` or the end of the text
//! statement = let | node
//! let      = name [ ":" ty ] "=" node
//! node     = binary(1)
//! binary(n) = binary(n+1) { operator(n) binary(n+1) }      for n = 1..5, with binary(6) = unary
//! operator = "&&" "||"  |  "<=" ">=" "==" "!=" "<" ">"  |  ">>" "<<" "&" "|" "^"  |  "+" "-"  |  "*" "/" "%"
//! unary    = ( "-" | "!" ) unary | primary
//! primary  = "(" node ")" | number | "true" | "false" | "unit" | cond | fn | name [ "(" [ node { "," node } ] ")" ]
//! cond     = "if" block "do" block "else" block "end"
//!          | "if" block "then" block "else" node
//! fn       = "fn" [ name ] params [ ":" ty ] "do" block "end"
//!          | "fn" "rec" name params ":" ty "do" block "end"
//! params   = "(" [ name ":" ty { "," name ":" ty } ] ")"
//! ty       = base [ "->" ty ]
//! base     = "Int" | "Bool" | "Unit" | "(" ty ")"
//! ```
//!
//! The operators of one level associate to the left, and a later level binds
//! tighter. An operator stands on the line of its left operand.
//!
//! Where the grammar repeats, the functions test that the part before has
//! moved forward. The test is what makes them well founded. It never fails:
//! the parsing functions show that every part that succeeds moves forward.
use vstd::prelude::*;
use vstd::utf8::is_ascii_chars;

use crate::ast::{BinOp, Literal, UnOp};
use crate::location::{Located, Location};
use crate::parser::lexis::{
    at, digits_value, keyword_at, name_starts, rest_len, skip, spec_is_digit, word3, word4,
    Class, Keyword,
};
use crate::parser::tree::{Param, Tree};
use crate::parser::{Expected, ParsingError, ParsingResult};
use crate::ty::Ty;

verus! {

/// The most characters that a text may have.
pub const MAX_TEXT: usize = usize::MAX - 8;

/// The range from `start` to `end`.
pub open spec fn span(start: int, end: int) -> Location {
    Location { start: start as usize, end: end as usize }
}

/// The failure to find what was expected at `pos`.
pub open spec fn failure<T>(pos: int, expected: Expected) -> ParsingResult<T> {
    Err(ParsingError { loc: span(pos, pos), expected })
}

pub open spec fn spec_name(text: Seq<char>, pos: int) -> ParsingResult<(Located<Seq<char>>, int)> {
    if name_starts(text, pos) {
        let end = skip(text, pos, Class::Ident);
        Ok((Located { content: text.subrange(pos, end), loc: span(pos, end) }, end))
    } else {
        failure(pos, Expected::Name)
    }
}

pub open spec fn spec_ty(text: Seq<char>, pos: int) -> ParsingResult<(Located<Ty>, int)>
    decreases rest_len(text, pos), 1int,
{
    match spec_base_ty(text, pos) {
        Ok((base, end)) => {
            let arrow = skip(text, end, Class::Space);
            if at(text, arrow) == '-' && at(text, arrow + 1) == '>' {
                if arrow < pos {
                    failure(pos, Expected::Type)
                } else {
                    match spec_ty(text, skip(text, arrow + 2, Class::Space)) {
                        Ok((ret, end)) => Ok(
                            (
                                Located {
                                    content: Ty::Arrow(
                                        Box::new(base.content),
                                        Box::new(ret.content),
                                    ),
                                    loc: span(pos, end),
                                },
                                end,
                            ),
                        ),
                        Err(error) => Err(error),
                    }
                }
            } else {
                Ok((base, end))
            }
        },
        Err(error) => Err(error),
    }
}

pub open spec fn spec_base_ty(text: Seq<char>, pos: int) -> ParsingResult<(Located<Ty>, int)>
    decreases rest_len(text, pos), 0int,
{
    if word3(text, pos, 'I', 'n', 't') {
        Ok((Located { content: Ty::Int, loc: span(pos, pos + 3) }, pos + 3))
    } else if word4(text, pos, 'B', 'o', 'o', 'l') {
        Ok((Located { content: Ty::Bool, loc: span(pos, pos + 4) }, pos + 4))
    } else if word4(text, pos, 'U', 'n', 'i', 't') {
        Ok((Located { content: Ty::Unit, loc: span(pos, pos + 4) }, pos + 4))
    } else if at(text, pos) == '(' {
        match spec_ty(text, skip(text, pos + 1, Class::Space)) {
            Ok((inner, end)) => {
                let close = skip(text, end, Class::Space);
                if at(text, close) == ')' {
                    Ok((Located { content: inner.content, loc: span(pos, close + 1) }, close + 1))
                } else {
                    failure(close, Expected::CloseParen)
                }
            },
            Err(error) => Err(error),
        }
    } else {
        failure(pos, Expected::Type)
    }
}

pub open spec fn spec_binding(text: Seq<char>, pos: int) -> ParsingResult<(Located<Param>, int)> {
    match spec_name(text, pos) {
        Ok((name, end)) => {
            let colon = skip(text, end, Class::Space);
            if at(text, colon) == ':' {
                match spec_ty(text, skip(text, colon + 1, Class::Space)) {
                    Ok((ty, end)) => Ok(
                        (Located { content: (name.content, ty.content), loc: span(pos, end) }, end),
                    ),
                    Err(error) => Err(error),
                }
            } else {
                failure(colon, Expected::Colon)
            }
        },
        Err(error) => Err(error),
    }
}

pub open spec fn spec_params(text: Seq<char>, pos: int) -> ParsingResult<
    (Seq<Located<Param>>, int),
> {
    if at(text, pos) == '(' {
        let first = skip(text, pos + 1, Class::White);
        if at(text, first) == ')' {
            Ok((Seq::empty(), first + 1))
        } else {
            spec_params_rest(text, first, Seq::empty())
        }
    } else {
        failure(pos, Expected::OpenParen)
    }
}

pub open spec fn spec_params_rest(
    text: Seq<char>,
    pos: int,
    found: Seq<Located<Param>>,
) -> ParsingResult<(Seq<Located<Param>>, int)>
    decreases rest_len(text, pos),
{
    match spec_binding(text, pos) {
        Ok((binding, end)) => {
            let sign = skip(text, end, Class::White);
            if at(text, sign) == ',' {
                if sign < pos {
                    failure(pos, Expected::Name)
                } else {
                    spec_params_rest(
                        text,
                        skip(text, sign + 1, Class::White),
                        found.push(binding),
                    )
                }
            } else if at(text, sign) == ')' {
                Ok((found.push(binding), sign + 1))
            } else {
                failure(sign, Expected::CloseParen)
            }
        },
        Err(error) => Err(error),
    }
}

pub open spec fn spec_number(text: Seq<char>, pos: int) -> ParsingResult<(Located<Tree>, int)> {
    let end = skip(text, pos, Class::Digit);
    let value = digits_value(text, pos, end);
    if !spec_is_digit(at(text, pos)) {
        failure(pos, Expected::Number)
    } else if value <= i128::MAX {
        Ok(
            (
                Located { content: Tree::Literal(Literal::Number(value as i128)), loc: span(pos, end) },
                end,
            ),
        )
    } else {
        failure(pos, Expected::Number)
    }
}

/// The binary operator of the given level that stands at `pos`, with its width.
pub open spec fn spec_operator(text: Seq<char>, pos: int, level: nat) -> Option<(BinOp, int)> {
    let first = at(text, pos);
    let second = at(text, pos + 1);
    if level == 1 {
        if first == '&' && second == '&' {
            Some((BinOp::And, 2))
        } else if first == '|' && second == '|' {
            Some((BinOp::Or, 2))
        } else {
            None
        }
    } else if level == 2 {
        if first == '<' && second == '=' {
            Some((BinOp::Lte, 2))
        } else if first == '>' && second == '=' {
            Some((BinOp::Gte, 2))
        } else if first == '=' && second == '=' {
            Some((BinOp::Eq, 2))
        } else if first == '!' && second == '=' {
            Some((BinOp::Neq, 2))
        } else if first == '<' && second != '<' {
            Some((BinOp::Lt, 1))
        } else if first == '>' && second != '>' {
            Some((BinOp::Gt, 1))
        } else {
            None
        }
    } else if level == 3 {
        if first == '>' && second == '>' {
            Some((BinOp::Shr, 2))
        } else if first == '<' && second == '<' {
            Some((BinOp::Shl, 2))
        } else if first == '&' && second != '&' {
            Some((BinOp::BitAnd, 1))
        } else if first == '|' && second != '|' {
            Some((BinOp::BitOr, 1))
        } else if first == '^' {
            Some((BinOp::BitXor, 1))
        } else {
            None
        }
    } else if level == 4 {
        if first == '+' {
            Some((BinOp::Add, 1))
        } else if first == '-' {
            Some((BinOp::Sub, 1))
        } else {
            None
        }
    } else if level == 5 {
        if first == '*' {
            Some((BinOp::Mul, 1))
        } else if first == '/' {
            Some((BinOp::Div, 1))
        } else if first == '%' {
            Some((BinOp::Rem, 1))
        } else {
            None
        }
    } else {
        None
    }
}

/// True when a `let` stands at `pos`: a name, followed by `:` or by a `=`
/// that is not the first half of `==`.
pub open spec fn spec_is_let(text: Seq<char>, pos: int) -> bool {
    name_starts(text, pos) && {
        let sign = skip(text, skip(text, pos, Class::Ident), Class::Space);
        at(text, sign) == ':' || (at(text, sign) == '=' && at(text, sign + 1) != '=')
    }
}

/// True when a block ends at `pos`.
pub open spec fn spec_block_ends(text: Seq<char>, pos: int) -> bool {
    pos >= text.len() || keyword_at(text, pos) == Some(Keyword::Do) || keyword_at(text, pos)
        == Some(Keyword::Then) || keyword_at(text, pos) == Some(Keyword::Else) || keyword_at(
        text,
        pos,
    ) == Some(Keyword::End)
}

/// The range of a block whose statements are `nodes` and that ends at `end`.
pub open spec fn block_span(nodes: Seq<Located<Tree>>, end: int) -> Location {
    if nodes.len() == 0 {
        span(end, end)
    } else {
        nodes[0].loc.join(nodes.last().loc)
    }
}

pub open spec fn spec_block(text: Seq<char>, pos: int) -> ParsingResult<
    (Located<Seq<Located<Tree>>>, int),
>
    decreases rest_len(text, pos), 41int,
{
    match spec_stmts(text, pos, Seq::empty()) {
        Ok((nodes, end)) => Ok((Located { content: nodes, loc: block_span(nodes, end) }, end)),
        Err(error) => Err(error),
    }
}

pub open spec fn spec_stmts(text: Seq<char>, pos: int, found: Seq<Located<Tree>>) -> ParsingResult<
    (Seq<Located<Tree>>, int),
>
    decreases rest_len(text, pos), 40int,
{
    let start = skip(text, pos, Class::Gap);
    if spec_block_ends(text, start) {
        Ok((found, start))
    } else {
        match spec_stmt(text, start) {
            Ok((stmt, end)) => if end <= start {
                failure(start, Expected::Node)
            } else {
                spec_stmts(text, end, found.push(stmt))
            },
            Err(error) => Err(error),
        }
    }
}

pub open spec fn spec_stmt(text: Seq<char>, pos: int) -> ParsingResult<(Located<Tree>, int)>
    decreases rest_len(text, pos), 33int,
{
    if spec_is_let(text, pos) {
        spec_let(text, pos)
    } else {
        spec_node(text, pos)
    }
}

pub open spec fn spec_let(text: Seq<char>, pos: int) -> ParsingResult<(Located<Tree>, int)>
    decreases rest_len(text, pos), 32int,
{
    match spec_name(text, pos) {
        Ok((name, end)) => {
            let sign = skip(text, end, Class::Space);
            if at(text, sign) == ':' {
                match spec_ty(text, skip(text, sign + 1, Class::Space)) {
                    Ok((ty, end)) => {
                        let equals = skip(text, end, Class::Space);
                        if at(text, equals) != '=' {
                            failure(equals, Expected::Equals)
                        } else if equals < pos {
                            failure(pos, Expected::Node)
                        } else {
                            match spec_node(text, skip(text, equals + 1, Class::White)) {
                                Ok((value, end)) => Ok(
                                    (
                                        Located {
                                            content: Tree::LetBind(
                                                name,
                                                Some(ty),
                                                Box::new(value),
                                            ),
                                            loc: span(pos, end),
                                        },
                                        end,
                                    ),
                                ),
                                Err(error) => Err(error),
                            }
                        }
                    },
                    Err(error) => Err(error),
                }
            } else if at(text, sign) == '=' {
                match spec_node(text, skip(text, sign + 1, Class::White)) {
                    Ok((value, end)) => Ok(
                        (
                            Located {
                                content: Tree::LetBind(name, None, Box::new(value)),
                                loc: span(pos, end),
                            },
                            end,
                        ),
                    ),
                    Err(error) => Err(error),
                }
            } else {
                failure(sign, Expected::Equals)
            }
        },
        Err(error) => Err(error),
    }
}

pub open spec fn spec_node(text: Seq<char>, pos: int) -> ParsingResult<(Located<Tree>, int)>
    decreases rest_len(text, pos), 31int,
{
    spec_binary(text, pos, 1)
}

/// The operand of an operator of the given level.
pub open spec fn spec_operand(text: Seq<char>, pos: int, level: nat) -> ParsingResult<
    (Located<Tree>, int),
>
    decreases rest_len(text, pos), 29 - 2 * level,
{
    if 1 <= level < 5 {
        spec_binary(text, pos, level + 1)
    } else if level == 5 {
        spec_unary(text, pos)
    } else {
        failure(pos, Expected::Node)
    }
}

pub open spec fn spec_binary(text: Seq<char>, pos: int, level: nat) -> ParsingResult<
    (Located<Tree>, int),
>
    decreases rest_len(text, pos), 30 - 2 * level,
{
    if 1 <= level <= 5 {
        match spec_operand(text, pos, level) {
            Ok((left, end)) => if end <= pos {
                failure(pos, Expected::Node)
            } else {
                spec_binary_rest(text, left, end, level)
            },
            Err(error) => Err(error),
        }
    } else {
        failure(pos, Expected::Node)
    }
}

pub open spec fn spec_binary_rest(
    text: Seq<char>,
    left: Located<Tree>,
    pos: int,
    level: nat,
) -> ParsingResult<(Located<Tree>, int)>
    decreases rest_len(text, pos), 0int,
{
    let sign = skip(text, pos, Class::Space);
    match spec_operator(text, sign, level) {
        Some((op, width)) => match spec_operand(
            text,
            skip(text, sign + width, Class::White),
            level,
        ) {
            Ok((right, end)) => if end <= pos {
                failure(pos, Expected::Node)
            } else {
                spec_binary_rest(
                    text,
                    Located {
                        content: Tree::BinaryOp(op, Box::new(left), Box::new(right)),
                        loc: left.loc.join(right.loc),
                    },
                    end,
                    level,
                )
            },
            Err(error) => Err(error),
        },
        None => Ok((left, pos)),
    }
}

pub open spec fn spec_unary(text: Seq<char>, pos: int) -> ParsingResult<(Located<Tree>, int)>
    decreases rest_len(text, pos), 10int,
{
    if at(text, pos) == '-' || at(text, pos) == '!' {
        let op = if at(text, pos) == '-' {
            UnOp::Neg
        } else {
            UnOp::Not
        };
        match spec_unary(text, skip(text, pos + 1, Class::Space)) {
            Ok((operand, end)) => Ok(
                (
                    Located { content: Tree::UnaryOp(op, Box::new(operand)), loc: span(pos, end) },
                    end,
                ),
            ),
            Err(error) => Err(error),
        }
    } else {
        spec_primary(text, pos)
    }
}

pub open spec fn spec_primary(text: Seq<char>, pos: int) -> ParsingResult<(Located<Tree>, int)>
    decreases rest_len(text, pos), 9int,
{
    if at(text, pos) == '(' {
        match spec_node(text, skip(text, pos + 1, Class::White)) {
            Ok((inner, end)) => {
                let close = skip(text, end, Class::White);
                if at(text, close) == ')' {
                    Ok((Located { content: inner.content, loc: span(pos, close + 1) }, close + 1))
                } else {
                    failure(close, Expected::CloseParen)
                }
            },
            Err(error) => Err(error),
        }
    } else if spec_is_digit(at(text, pos)) {
        spec_number(text, pos)
    } else {
        match keyword_at(text, pos) {
            Some(Keyword::True) => Ok(
                (
                    Located { content: Tree::Literal(Literal::Bool(true)), loc: span(pos, pos + 4) },
                    pos + 4,
                ),
            ),
            Some(Keyword::False) => Ok(
                (
                    Located {
                        content: Tree::Literal(Literal::Bool(false)),
                        loc: span(pos, pos + 5),
                    },
                    pos + 5,
                ),
            ),
            Some(Keyword::Unit) => Ok(
                (Located { content: Tree::Literal(Literal::Unit), loc: span(pos, pos + 4) }, pos + 4),
            ),
            Some(Keyword::If) => spec_cond(text, pos),
            Some(Keyword::Fn) => spec_fn(text, pos),
            Some(_) => failure(pos, Expected::Node),
            None => match spec_name(text, pos) {
                Ok((name, end)) => {
                    let open = skip(text, end, Class::Space);
                    if at(text, open) == '(' {
                        let first = skip(text, open + 1, Class::White);
                        if at(text, first) == ')' {
                            Ok(
                                (
                                    Located {
                                        content: Tree::Call(name, Seq::empty()),
                                        loc: span(pos, first + 1),
                                    },
                                    first + 1,
                                ),
                            )
                        } else {
                            match spec_args(text, first, Seq::empty()) {
                                Ok((args, end)) => Ok(
                                    (
                                        Located {
                                            content: Tree::Call(name, args),
                                            loc: span(pos, end),
                                        },
                                        end,
                                    ),
                                ),
                                Err(error) => Err(error),
                            }
                        }
                    } else {
                        Ok((Located { content: Tree::Name(name.content), loc: name.loc }, end))
                    }
                },
                Err(_) => failure(pos, Expected::Node),
            },
        }
    }
}

pub open spec fn spec_args(text: Seq<char>, pos: int, found: Seq<Located<Tree>>) -> ParsingResult<
    (Seq<Located<Tree>>, int),
>
    decreases rest_len(text, pos), 40int,
{
    match spec_node(text, pos) {
        Ok((arg, end)) => {
            let sign = skip(text, end, Class::White);
            if at(text, sign) == ',' {
                if sign < pos {
                    failure(pos, Expected::Node)
                } else {
                    spec_args(text, skip(text, sign + 1, Class::White), found.push(arg))
                }
            } else if at(text, sign) == ')' {
                Ok((found.push(arg), sign + 1))
            } else {
                failure(sign, Expected::CloseParen)
            }
        },
        Err(error) => Err(error),
    }
}

pub open spec fn spec_cond(text: Seq<char>, pos: int) -> ParsingResult<(Located<Tree>, int)>
    decreases rest_len(text, pos), 8int,
{
    if keyword_at(text, pos) != Some(Keyword::If) {
        failure(pos, Expected::Node)
    } else {
        match spec_block(text, pos + 2) {
            Ok((condition, at_do)) => if keyword_at(text, at_do) == Some(Keyword::Then) {
                if at_do < pos {
                    failure(pos, Expected::Node)
                } else {
                    spec_cond_then(text, pos, condition, at_do)
                }
            } else if keyword_at(text, at_do) != Some(Keyword::Do) {
                failure(at_do, Expected::Do)
            } else if at_do < pos {
                failure(pos, Expected::Node)
            } else {
                match spec_block(text, at_do + 2) {
                    Ok((then_block, at_else)) => if keyword_at(text, at_else) != Some(
                        Keyword::Else,
                    ) {
                        failure(at_else, Expected::Else)
                    } else if at_else < pos {
                        failure(pos, Expected::Node)
                    } else {
                        match spec_block(text, at_else + 4) {
                            Ok((else_block, at_end)) => if keyword_at(text, at_end) != Some(
                                Keyword::End,
                            ) {
                                failure(at_end, Expected::End)
                            } else {
                                Ok(
                                    (
                                        Located {
                                            content: Tree::Cond(condition, then_block, else_block),
                                            loc: span(pos, at_end + 3),
                                        },
                                        at_end + 3,
                                    ),
                                )
                            },
                            Err(error) => Err(error),
                        }
                    },
                    Err(error) => Err(error),
                }
            },
            Err(error) => Err(error),
        }
    }
}

/// A conditional that starts at `start`, from its `then` on: a block up to
/// `else`, and one node behind it.
pub open spec fn spec_cond_then(
    text: Seq<char>,
    start: int,
    condition: Located<Seq<Located<Tree>>>,
    pos: int,
) -> ParsingResult<(Located<Tree>, int)>
    decreases rest_len(text, pos), 7int,
{
    if keyword_at(text, pos) != Some(Keyword::Then) {
        failure(pos, Expected::Do)
    } else {
        match spec_block(text, pos + 4) {
            Ok((then_block, at_else)) => if keyword_at(text, at_else) != Some(Keyword::Else) {
                failure(at_else, Expected::Else)
            } else if at_else < pos {
                failure(pos, Expected::Node)
            } else {
                match spec_node(text, skip(text, at_else + 4, Class::White)) {
                    Ok((node, end)) => Ok(
                        (
                            Located {
                                content: Tree::Cond(
                                    condition,
                                    then_block,
                                    Located { content: Seq::empty().push(node), loc: node.loc },
                                ),
                                loc: span(start, end),
                            },
                            end,
                        ),
                    ),
                    Err(error) => Err(error),
                }
            },
            Err(error) => Err(error),
        }
    }
}

pub open spec fn spec_fn(text: Seq<char>, pos: int) -> ParsingResult<(Located<Tree>, int)>
    decreases rest_len(text, pos), 8int,
{
    if keyword_at(text, pos) != Some(Keyword::Fn) {
        failure(pos, Expected::Node)
    } else {
        let after = skip(text, pos + 2, Class::Space);
        if keyword_at(text, after) == Some(Keyword::Rec) {
            match spec_name(text, skip(text, after + 3, Class::Space)) {
                Ok((name, end)) => spec_fn_tail(
                    text,
                    pos,
                    Some(name),
                    true,
                    skip(text, end, Class::Space),
                ),
                Err(error) => Err(error),
            }
        } else if name_starts(text, after) {
            match spec_name(text, after) {
                Ok((name, end)) => spec_fn_tail(
                    text,
                    pos,
                    Some(name),
                    false,
                    skip(text, end, Class::Space),
                ),
                Err(error) => Err(error),
            }
        } else {
            spec_fn_tail(text, pos, None, false, after)
        }
    }
}

/// A function definition from its parameters on. It starts at `start`; its
/// name, if it has one, and whether it is marked as recursive, are known.
pub open spec fn spec_fn_tail(
    text: Seq<char>,
    start: int,
    name: Option<Located<Seq<char>>>,
    rec: bool,
    pos: int,
) -> ParsingResult<(Located<Tree>, int)>
    decreases rest_len(text, pos), 7int,
{
    match spec_params(text, pos) {
        Ok((params, end)) => {
            let colon = skip(text, end, Class::Space);
            if at(text, colon) == ':' {
                match spec_ty(text, skip(text, colon + 1, Class::Space)) {
                    Ok((ty, end)) => if end < pos {
                        failure(pos, Expected::Node)
                    } else {
                        spec_fn_body(
                            text,
                            start,
                            name,
                            rec,
                            params,
                            Some(ty),
                            skip(text, end, Class::White),
                        )
                    },
                    Err(error) => Err(error),
                }
            } else if rec {
                failure(colon, Expected::Colon)
            } else if end < pos {
                failure(pos, Expected::Node)
            } else {
                spec_fn_body(text, start, name, rec, params, None, skip(text, end, Class::White))
            }
        },
        Err(error) => Err(error),
    }
}

/// A function definition from its `do` on.
pub open spec fn spec_fn_body(
    text: Seq<char>,
    start: int,
    name: Option<Located<Seq<char>>>,
    rec: bool,
    params: Seq<Located<Param>>,
    ret: Option<Located<Ty>>,
    pos: int,
) -> ParsingResult<(Located<Tree>, int)>
    decreases rest_len(text, pos), 6int,
{
    if keyword_at(text, pos) != Some(Keyword::Do) {
        failure(pos, Expected::Do)
    } else {
        match spec_block(text, pos + 2) {
            Ok((body, at_end)) => if keyword_at(text, at_end) != Some(Keyword::End) {
                failure(at_end, Expected::End)
            } else {
                let loc = span(start, at_end + 3);
                let content = if rec && name is Some && ret is Some {
                    Tree::FnRecDef(name->0, params, body, ret->0)
                } else {
                    Tree::FnDef(name, params, body, ret)
                };
                Ok((Located { content, loc }, at_end + 3))
            },
            Err(error) => Err(error),
        }
    }
}

/// A call: a name, and arguments in brackets behind it.
pub open spec fn spec_call(text: Seq<char>, pos: int) -> ParsingResult<(Located<Tree>, int)> {
    if !name_starts(text, pos) {
        failure(pos, Expected::Name)
    } else {
        let open = skip(text, skip(text, pos, Class::Ident), Class::Space);
        if at(text, open) == '(' {
            spec_primary(text, pos)
        } else {
            failure(open, Expected::OpenParen)
        }
    }
}

/// The definition of a function that is marked as recursive.
pub open spec fn spec_fn_rec_def(text: Seq<char>, pos: int) -> ParsingResult<(Located<Tree>, int)> {
    if keyword_at(text, pos) != Some(Keyword::Fn) {
        failure(pos, Expected::Node)
    } else if keyword_at(text, skip(text, pos + 2, Class::Space)) != Some(Keyword::Rec) {
        failure(skip(text, pos + 2, Class::Space), Expected::Node)
    } else {
        spec_fn(text, pos)
    }
}

/// Why a text cannot be parsed at all, if it cannot: it holds a character
/// outside of ASCII, or more than [`MAX_TEXT`] characters.
pub open spec fn spec_refusal(text: Seq<char>) -> Option<ParsingError> {
    if !is_ascii_chars(text) {
        let pos = skip(text, 0, Class::Ascii);
        Some(ParsingError { loc: span(pos, pos), expected: Expected::Ascii })
    } else if text.len() > MAX_TEXT {
        Some(ParsingError { loc: span(0, 0), expected: Expected::ShorterText })
    } else {
        None
    }
}

/// The program that a text holds, or the first place where it is none.
pub open spec fn spec_parse(text: Seq<char>) -> ParsingResult<Located<Seq<Located<Tree>>>> {
    match spec_refusal(text) {
        Some(error) => Err(error),
        None => match spec_block(text, 0) {
            Ok((block, end)) => if end >= text.len() {
                Ok(block)
            } else {
                failure(end, Expected::EndOfText)
            },
            Err(error) => Err(error),
        },
    }
}

} // verus!
