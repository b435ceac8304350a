//! The mid-level terms: the syntax tree with every name resolved to the
//! binding it refers to, and with the surface forms brought down to a small
//! term language.
use vstd::prelude::*;

use crate::ast::{BinOp, Literal, Name, UnOp};
use crate::location::Located;
use crate::ty::{Binding, Ty};

pub mod lower;

verus! {

/// A mid-level term.
#[derive(Debug, Eq, PartialEq)]
pub enum Term<'a> {
    /// A literal.
    Lit(Literal),
    /// A block without statements. It is the unit value; as the body of a
    /// function it gives the function no return type.
    Empty,
    /// A reference to a binding: the name as written, and the number of
    /// bindings that lie between the reference and the binding it refers to
    /// (0 for the innermost binding in scope).
    Var(Name<'a>, usize),
    /// A function of one parameter.
    Abs(Located<Binding<'a>>, Box<Located<Term<'a>>>),
    /// A term with the type that the source declares for it.
    Ascribe(Located<Ty>, Box<Located<Term<'a>>>),
    /// A function definition. `lambda` holds one abstraction per parameter
    /// around the body. `is_rec` says whether the body refers to the function
    /// itself: if it does, the function is bound inside `lambda`, with the
    /// declared type `ty`.
    Fn { name: Option<Located<Name<'a>>>, is_rec: bool, ty: Option<Ty>, lambda: Box<Located<Term<'a>>> },
    UnaryOp(UnOp, Box<Located<Term<'a>>>),
    BinaryOp(BinOp, Box<Located<Term<'a>>>, Box<Located<Term<'a>>>),
    /// The application of a function to one argument.
    App(Box<Located<Term<'a>>>, Box<Located<Term<'a>>>),
    /// A binding of the value of the first term, in scope in the second.
    Let(Located<Name<'a>>, Option<Located<Ty>>, Box<Located<Term<'a>>>, Box<Located<Term<'a>>>),
    Cond(Box<Located<Term<'a>>>, Box<Located<Term<'a>>>, Box<Located<Term<'a>>>),
    /// The first term, then the second; the value is that of the second.
    Sequence(Box<Located<Term<'a>>>, Box<Located<Term<'a>>>),
}

/// True when the location of the term, and of every term in it, lies in a
/// text of `len` positions.
pub open spec fn term_within(term: Located<Term<'_>>, len: nat) -> bool
    decreases term,
{
    term.loc.within(len) && match term.content {
        Term::Lit(_) => true,
        Term::Empty => true,
        Term::Var(_, _) => true,
        Term::Abs(_, body) => term_within(*body, len),
        Term::Ascribe(_, inner) => term_within(*inner, len),
        Term::Fn { name, is_rec, ty, lambda } => term_within(*lambda, len),
        Term::UnaryOp(_, operand) => term_within(*operand, len),
        Term::BinaryOp(_, left, right) => term_within(*left, len) && term_within(*right, len),
        Term::App(callee, arg) => term_within(*callee, len) && term_within(*arg, len),
        Term::Let(_, _, value, body) => term_within(*value, len) && term_within(*body, len),
        Term::Cond(condition, then_term, else_term) => term_within(*condition, len)
            && term_within(*then_term, len) && term_within(*else_term, len),
        Term::Sequence(first, second) => term_within(*first, len) && term_within(*second, len),
    }
}

/// True when every reference in the term points at one of the bindings
/// around it, or at one of `depth` bindings outside of the term.
pub open spec fn closed(term: Located<Term<'_>>, depth: nat) -> bool
    decreases term,
{
    match term.content {
        Term::Lit(_) => true,
        Term::Empty => true,
        Term::Var(_, index) => index < depth,
        Term::Abs(_, body) => closed(*body, depth + 1),
        Term::Ascribe(_, inner) => closed(*inner, depth),
        Term::Fn { name, is_rec, ty, lambda } => closed(
            *lambda,
            if is_rec {
                depth + 1
            } else {
                depth
            },
        ),
        Term::UnaryOp(_, operand) => closed(*operand, depth),
        Term::BinaryOp(_, left, right) => closed(*left, depth) && closed(*right, depth),
        Term::App(callee, arg) => closed(*callee, depth) && closed(*arg, depth),
        Term::Let(_, _, value, body) => closed(*value, depth) && closed(*body, depth + 1),
        Term::Cond(condition, then_term, else_term) => closed(*condition, depth) && closed(
            *then_term,
            depth,
        ) && closed(*else_term, depth),
        Term::Sequence(first, second) => closed(*first, depth) && closed(*second, depth),
    }
}

} // verus!
