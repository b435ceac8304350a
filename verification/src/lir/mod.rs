//! The low-level terms: nameless, without locations, and with the type of
//! every binder written down, ready for the machine.
use vstd::prelude::*;

use crate::ast::{BinOp, BinOpKind, Literal, UnOp};
use crate::location::Located;
use crate::mir;
use crate::ty::Ty;

verus! {

/// A low-level term. A reference is the number of binders between it and the
/// binder it refers to.
#[derive(Debug, Eq, PartialEq)]
pub enum Term {
    Lit(Literal),
    Var(usize),
    /// A function of one parameter of the given type.
    Abs(Ty, Box<Term>),
    /// A value of the given type that is bound to itself inside the term.
    Fix(Ty, Box<Term>),
    UnaryOp(UnOp, Box<Term>),
    BinaryOp(BinOp, Box<Term>, Box<Term>),
    App(Box<Term>, Box<Term>),
    /// The value of the first term, bound in the second.
    Let(Box<Term>, Box<Term>),
    Cond(Box<Term>, Box<Term>, Box<Term>),
    Sequence(Box<Term>, Box<Term>),
}

impl Clone for Term {
    fn clone(&self) -> (copy: Term)
        ensures
            copy == *self,
        decreases *self,
    {
        match self {
            Term::Lit(literal) => Term::Lit(*literal),
            Term::Var(index) => Term::Var(*index),
            Term::Abs(ty, body) => {
                let body_copy = (**body).clone();
                Term::Abs(ty.clone(), Box::new(body_copy))
            },
            Term::Fix(ty, body) => {
                let body_copy = (**body).clone();
                Term::Fix(ty.clone(), Box::new(body_copy))
            },
            Term::UnaryOp(op, operand) => {
                let operand_copy = (**operand).clone();
                Term::UnaryOp(*op, Box::new(operand_copy))
            },
            Term::BinaryOp(op, left, right) => {
                let left_copy = (**left).clone();
                let right_copy = (**right).clone();
                Term::BinaryOp(*op, Box::new(left_copy), Box::new(right_copy))
            },
            Term::App(callee, arg) => {
                let callee_copy = (**callee).clone();
                let arg_copy = (**arg).clone();
                Term::App(Box::new(callee_copy), Box::new(arg_copy))
            },
            Term::Let(value, body) => {
                let value_copy = (**value).clone();
                let body_copy = (**body).clone();
                Term::Let(Box::new(value_copy), Box::new(body_copy))
            },
            Term::Cond(condition, then_term, else_term) => {
                let condition_copy = (**condition).clone();
                let then_copy = (**then_term).clone();
                let else_copy = (**else_term).clone();
                Term::Cond(Box::new(condition_copy), Box::new(then_copy), Box::new(else_copy))
            },
            Term::Sequence(first, second) => {
                let first_copy = (**first).clone();
                let second_copy = (**second).clone();
                Term::Sequence(Box::new(first_copy), Box::new(second_copy))
            },
        }
    }
}

/// The type that a recursive function is bound at: the one it declares. A
/// term without one is ill-typed, and gets the unit type here.
pub open spec fn spec_declared(ty: Option<Ty>) -> Ty {
    match ty {
        Some(ty) => ty,
        None => Ty::Unit,
    }
}

impl Term {
    /// The low-level term for a mid-level one: names, locations and
    /// ascriptions are dropped, an empty block becomes the unit value, the
    /// types of the parameters are kept, and a function that refers to itself
    /// becomes a `Fix`.
    pub open spec fn spec_from_mir(term: Located<mir::Term<'_>>) -> Term
        decreases term,
    {
        match term.content {
            mir::Term::Lit(literal) => Term::Lit(literal),
            mir::Term::Empty => Term::Lit(Literal::Unit),
            mir::Term::Var(_, index) => Term::Var(index),
            mir::Term::Abs(binding, body) => Term::Abs(
                binding.content.ty,
                Box::new(Self::spec_from_mir(*body)),
            ),
            mir::Term::Ascribe(_, inner) => Self::spec_from_mir(*inner),
            mir::Term::Fn { name, is_rec, ty, lambda } => if is_rec {
                Term::Fix(spec_declared(ty), Box::new(Self::spec_from_mir(*lambda)))
            } else {
                Self::spec_from_mir(*lambda)
            },
            mir::Term::UnaryOp(op, operand) => Term::UnaryOp(
                op,
                Box::new(Self::spec_from_mir(*operand)),
            ),
            mir::Term::BinaryOp(op, left, right) => Term::BinaryOp(
                op,
                Box::new(Self::spec_from_mir(*left)),
                Box::new(Self::spec_from_mir(*right)),
            ),
            mir::Term::App(callee, arg) => Term::App(
                Box::new(Self::spec_from_mir(*callee)),
                Box::new(Self::spec_from_mir(*arg)),
            ),
            mir::Term::Let(_, _, value, body) => Term::Let(
                Box::new(Self::spec_from_mir(*value)),
                Box::new(Self::spec_from_mir(*body)),
            ),
            mir::Term::Cond(condition, then_term, else_term) => Term::Cond(
                Box::new(Self::spec_from_mir(*condition)),
                Box::new(Self::spec_from_mir(*then_term)),
                Box::new(Self::spec_from_mir(*else_term)),
            ),
            mir::Term::Sequence(first, second) => Term::Sequence(
                Box::new(Self::spec_from_mir(*first)),
                Box::new(Self::spec_from_mir(*second)),
            ),
        }
    }

    /// Lowers a mid-level term.
    pub fn from_mir(term: Located<mir::Term<'_>>) -> (lowered: Term)
        ensures
            lowered == Self::spec_from_mir(term),
    {
        lower(&term)
    }
}

/// Lowers a mid-level term that is borrowed.
pub fn lower(term: &Located<mir::Term<'_>>) -> (lowered: Term)
    ensures
        lowered == Term::spec_from_mir(*term),
    decreases *term,
{
    match &term.content {
        mir::Term::Lit(literal) => Term::Lit(*literal),
        mir::Term::Empty => Term::Lit(Literal::Unit),
        mir::Term::Var(_, index) => Term::Var(*index),
        mir::Term::Abs(binding, body) => Term::Abs(
            binding.content.ty.clone(),
            Box::new(lower(&**body)),
        ),
        mir::Term::Ascribe(_, inner) => lower(&**inner),
        mir::Term::Fn { name, is_rec, ty, lambda } => {
            let lambda = lower(&**lambda);
            if *is_rec {
                let declared = match ty {
                    Some(ty) => ty.clone(),
                    None => Ty::Unit,
                };
                Term::Fix(declared, Box::new(lambda))
            } else {
                lambda
            }
        },
        mir::Term::UnaryOp(op, operand) => Term::UnaryOp(*op, Box::new(lower(&**operand))),
        mir::Term::BinaryOp(op, left, right) => {
            let left = lower(&**left);
            let right = lower(&**right);
            Term::BinaryOp(*op, Box::new(left), Box::new(right))
        },
        mir::Term::App(callee, arg) => {
            let callee = lower(&**callee);
            let arg = lower(&**arg);
            Term::App(Box::new(callee), Box::new(arg))
        },
        mir::Term::Let(_, _, value, body) => {
            let value = lower(&**value);
            let body = lower(&**body);
            Term::Let(Box::new(value), Box::new(body))
        },
        mir::Term::Cond(condition, then_term, else_term) => {
            let condition = lower(&**condition);
            let then_term = lower(&**then_term);
            let else_term = lower(&**else_term);
            Term::Cond(Box::new(condition), Box::new(then_term), Box::new(else_term))
        },
        mir::Term::Sequence(first, second) => {
            let first = lower(&**first);
            let second = lower(&**second);
            Term::Sequence(Box::new(first), Box::new(second))
        },
    }
}

/// The type of a binary operation on operands of the types `left` and
/// `right`, if the operator takes them.
pub open spec fn spec_binary_ty(op: BinOp, left: Ty, right: Ty) -> Option<Ty> {
    match op.spec_kind() {
        BinOpKind::Arithmetic => if left == Ty::Int && right == Ty::Int {
            Some(Ty::Int)
        } else {
            None
        },
        BinOpKind::Comparison => if left == Ty::Int && right == Ty::Int {
            Some(Ty::Bool)
        } else {
            None
        },
        BinOpKind::Logical => if left == Ty::Bool && right == Ty::Bool {
            Some(Ty::Bool)
        } else {
            None
        },
        BinOpKind::Equality => if left.spec_is_basic() && left == right {
            Some(Ty::Bool)
        } else {
            None
        },
    }
}

/// The type of the operand and of the result of a unary operator.
pub open spec fn spec_unary_ty(op: UnOp) -> Ty {
    match op {
        UnOp::Neg => Ty::Int,
        UnOp::Not => Ty::Bool,
    }
}

/// The type of a low-level term where the binders in scope have the types
/// `ctx`, innermost last; `None` if the term has no type.
pub open spec fn spec_type_of(ctx: Seq<Ty>, term: Term) -> Option<Ty>
    decreases term,
{
    match term {
        Term::Lit(literal) => Some(literal.spec_ty()),
        Term::Var(index) => if index < ctx.len() {
            Some(ctx[ctx.len() - 1 - index])
        } else {
            None
        },
        Term::Abs(param, body) => match spec_type_of(ctx.push(param), *body) {
            Some(ret) => Some(Ty::Arrow(Box::new(param), Box::new(ret))),
            None => None,
        },
        Term::Fix(ty, body) => if spec_type_of(ctx.push(ty), *body) == Some(ty) {
            Some(ty)
        } else {
            None
        },
        Term::UnaryOp(op, operand) => if spec_type_of(ctx, *operand) == Some(spec_unary_ty(op)) {
            Some(spec_unary_ty(op))
        } else {
            None
        },
        Term::BinaryOp(op, left, right) => match (
            spec_type_of(ctx, *left),
            spec_type_of(ctx, *right),
        ) {
            (Some(left), Some(right)) => spec_binary_ty(op, left, right),
            _ => None,
        },
        Term::App(callee, arg) => match spec_type_of(ctx, *callee) {
            Some(Ty::Arrow(param, ret)) => if spec_type_of(ctx, *arg) == Some(*param) {
                Some(*ret)
            } else {
                None
            },
            _ => None,
        },
        Term::Let(value, body) => match spec_type_of(ctx, *value) {
            Some(bound) => spec_type_of(ctx.push(bound), *body),
            None => None,
        },
        Term::Cond(condition, then_term, else_term) => match (
            spec_type_of(ctx, *condition),
            spec_type_of(ctx, *then_term),
            spec_type_of(ctx, *else_term),
        ) {
            (Some(Ty::Bool), Some(then_ty), Some(else_ty)) => if then_ty == else_ty {
                Some(then_ty)
            } else {
                None
            },
            _ => None,
        },
        Term::Sequence(first, second) => match spec_type_of(ctx, *first) {
            Some(_) => spec_type_of(ctx, *second),
            None => None,
        },
    }
}

/// Lowering keeps the type: a mid-level term that the type checker accepts
/// lowers to a term of the same type.
pub proof fn lemma_lowering_keeps_type(ctx: Seq<Ty>, term: Located<mir::Term<'_>>)
    requires
        crate::ty::check::spec_type_of(ctx, term) is Ok,
    ensures
        spec_type_of(ctx, Term::spec_from_mir(term)) == Some(
            crate::ty::check::spec_type_of(ctx, term)->Ok_0.content,
        ),
    decreases term,
{
    match term.content {
        mir::Term::Lit(_) => {},
        mir::Term::Empty => {},
        mir::Term::Var(_, _) => {},
        mir::Term::Abs(binding, body) => {
            lemma_lowering_keeps_type(ctx.push(binding.content.ty), *body);
        },
        mir::Term::Ascribe(_, inner) => {
            lemma_lowering_keeps_type(ctx, *inner);
        },
        mir::Term::Fn { name, is_rec, ty, lambda } => {
            if is_rec {
                lemma_lowering_keeps_type(ctx.push(ty->0), *lambda);
            } else {
                lemma_lowering_keeps_type(ctx, *lambda);
            }
        },
        mir::Term::UnaryOp(_, operand) => {
            lemma_lowering_keeps_type(ctx, *operand);
        },
        mir::Term::BinaryOp(_, left, right) => {
            lemma_lowering_keeps_type(ctx, *left);
            lemma_lowering_keeps_type(ctx, *right);
        },
        mir::Term::App(callee, arg) => {
            lemma_lowering_keeps_type(ctx, *callee);
            lemma_lowering_keeps_type(ctx, *arg);
        },
        mir::Term::Let(_, annotation, value, body) => {
            lemma_lowering_keeps_type(ctx, *value);
            let value_ty = crate::ty::check::spec_type_of(ctx, *value)->Ok_0.content;
            lemma_lowering_keeps_type(ctx.push(value_ty), *body);
        },
        mir::Term::Cond(condition, then_term, else_term) => {
            lemma_lowering_keeps_type(ctx, *condition);
            lemma_lowering_keeps_type(ctx, *then_term);
            lemma_lowering_keeps_type(ctx, *else_term);
        },
        mir::Term::Sequence(first, second) => {
            lemma_lowering_keeps_type(ctx, *first);
            lemma_lowering_keeps_type(ctx, *second);
        },
    }
}

} // verus!
