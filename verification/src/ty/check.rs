//! The type checker: assigns a type to a mid-level term or rejects it.
use vstd::prelude::*;

use crate::ast::{BinOp, BinOpKind, UnOp};
use crate::location::{Located, Location};
use crate::mir::{closed, term_within, Term};
use crate::ty::{ensure_basic, expect_ty, spec_ensure_basic, spec_expect_ty, Ty, TyError, TyResult};

verus! {

/// The type of the operand and of the result of a unary operator.
pub open spec fn spec_unary_ty(op: UnOp) -> Ty {
    match op {
        UnOp::Neg => Ty::Int,
        UnOp::Not => Ty::Bool,
    }
}

/// The type of a binary operation whose operands have the types `left` and
/// `right`: arithmetic takes two integers to an integer, comparison two
/// integers to a boolean, logic two booleans to a boolean, and equality two
/// values of one basic type to a boolean. The left operand is held to its
/// type before the right one.
pub open spec fn spec_binary_ty<'a>(
    op: BinOp,
    left: Located<Ty>,
    right: Located<Ty>,
) -> TyResult<'a, Ty> {
    match op.spec_kind() {
        BinOpKind::Arithmetic => match spec_expect_ty::<'a>(Ty::Int, left) {
            Ok(_) => match spec_expect_ty::<'a>(Ty::Int, right) {
                Ok(_) => Ok(Ty::Int),
                Err(error) => Err(error),
            },
            Err(error) => Err(error),
        },
        BinOpKind::Comparison => match spec_expect_ty::<'a>(Ty::Int, left) {
            Ok(_) => match spec_expect_ty::<'a>(Ty::Int, right) {
                Ok(_) => Ok(Ty::Bool),
                Err(error) => Err(error),
            },
            Err(error) => Err(error),
        },
        BinOpKind::Logical => match spec_expect_ty::<'a>(Ty::Bool, left) {
            Ok(_) => match spec_expect_ty::<'a>(Ty::Bool, right) {
                Ok(_) => Ok(Ty::Bool),
                Err(error) => Err(error),
            },
            Err(error) => Err(error),
        },
        BinOpKind::Equality => match spec_ensure_basic::<'a>(left) {
            Ok(_) => match spec_expect_ty::<'a>(left.content, right) {
                Ok(_) => Ok(Ty::Bool),
                Err(error) => Err(error),
            },
            Err(error) => Err(error),
        },
    }
}

/// The type of `term` where the bindings in scope have the types `ctx`,
/// innermost last, or the first error that the term holds.
///
/// - A literal has the type of its kind, and an empty block is of the unit type.
/// - A reference has the type of the binding it points at, and is `Unbound`
///   if it points outside the scope.
/// - An abstraction has a function type, from the type of its parameter to
///   the type of its body with the parameter in scope. A body that is an
///   empty block gives no return type: the type is `Missing`.
/// - An ascribed term must have the ascribed type.
/// - A recursive `Fn` must declare its type (else `Missing`); its lambda is
///   checked with the function itself in scope at that type, and must have it.
///   Any other `Fn` has the type of its lambda, which must be the declared
///   one if one is declared; a lambda that is an empty block, with no type
///   declared, is `Missing`.
/// - The operand of a unary operator must have the operator's type; for the
///   binary operators see [`spec_binary_ty`].
/// - The callee of an application must have a function type (else
///   `ExpectedFn`, whatever the argument is), and the argument the type of
///   its parameter.
/// - The value of a `let` must have the annotated type if there is one; the
///   body is typed with the value's type in scope.
/// - The condition of a conditional must be a boolean, and the else branch
///   must have the type of the then branch.
/// - A sequence has the type of its second term; the first must have a type.
pub open spec fn spec_type_of<'a>(ctx: Seq<Ty>, term: Located<Term<'a>>) -> TyResult<
    'a,
    Located<Ty>,
>
    decreases term,
{
    let loc = term.loc;
    match term.content {
        Term::Lit(literal) => Ok(Located { content: literal.spec_ty(), loc }),
        Term::Empty => Ok(Located { content: Ty::Unit, loc }),
        Term::Var(name, index) => if index < ctx.len() {
            Ok(Located { content: ctx[ctx.len() - 1 - index], loc })
        } else {
            Err(TyError::Unbound(Located { content: name, loc }))
        },
        Term::Abs(binding, body) => if body.content is Empty {
            Err(TyError::Missing(Located { content: (), loc: body.loc }))
        } else {
            match spec_type_of(ctx.push(binding.content.ty), *body) {
                Ok(body_ty) => Ok(
                    Located {
                        content: Ty::Arrow(
                            Box::new(binding.content.ty),
                            Box::new(body_ty.content),
                        ),
                        loc,
                    },
                ),
                Err(error) => Err(error),
            }
        },
        Term::Ascribe(ty, inner) => match spec_type_of(ctx, *inner) {
            Ok(found) => match spec_expect_ty::<'a>(ty.content, found) {
                Ok(_) => Ok(Located { content: ty.content, loc }),
                Err(error) => Err(error),
            },
            Err(error) => Err(error),
        },
        Term::Fn { name, is_rec, ty, lambda } => if is_rec {
            match ty {
                Some(declared) => match spec_type_of(ctx.push(declared), *lambda) {
                    Ok(found) => match spec_expect_ty::<'a>(declared, found) {
                        Ok(_) => Ok(Located { content: declared, loc }),
                        Err(error) => Err(error),
                    },
                    Err(error) => Err(error),
                },
                None => Err(TyError::Missing(Located { content: (), loc })),
            }
        } else if ty is None && lambda.content is Empty {
            Err(TyError::Missing(Located { content: (), loc: lambda.loc }))
        } else {
            match spec_type_of(ctx, *lambda) {
                Ok(found) => match ty {
                    Some(declared) => match spec_expect_ty::<'a>(declared, found) {
                        Ok(_) => Ok(Located { content: declared, loc }),
                        Err(error) => Err(error),
                    },
                    None => Ok(Located { content: found.content, loc }),
                },
                Err(error) => Err(error),
            }
        },
        Term::UnaryOp(op, operand) => match spec_type_of(ctx, *operand) {
            Ok(found) => match spec_expect_ty::<'a>(spec_unary_ty(op), found) {
                Ok(_) => Ok(Located { content: spec_unary_ty(op), loc }),
                Err(error) => Err(error),
            },
            Err(error) => Err(error),
        },
        Term::BinaryOp(op, left, right) => match spec_type_of(ctx, *left) {
            Ok(left_ty) => match spec_type_of(ctx, *right) {
                Ok(right_ty) => match spec_binary_ty::<'a>(op, left_ty, right_ty) {
                    Ok(ty) => Ok(Located { content: ty, loc }),
                    Err(error) => Err(error),
                },
                Err(error) => Err(error),
            },
            Err(error) => Err(error),
        },
        Term::App(callee, arg) => match spec_type_of(ctx, *callee) {
            Ok(callee_ty) => match callee_ty.content {
                Ty::Arrow(param, ret) => match spec_type_of(ctx, *arg) {
                    Ok(arg_ty) => match spec_expect_ty::<'a>(*param, arg_ty) {
                        Ok(_) => Ok(Located { content: *ret, loc }),
                        Err(error) => Err(error),
                    },
                    Err(error) => Err(error),
                },
                _ => Err(TyError::ExpectedFn(callee_ty)),
            },
            Err(error) => Err(error),
        },
        Term::Let(name, annotation, value, body) => match spec_type_of(ctx, *value) {
            Ok(value_ty) => match annotation {
                Some(declared) => match spec_expect_ty::<'a>(declared.content, value_ty) {
                    Ok(_) => spec_type_of(ctx.push(declared.content), *body),
                    Err(error) => Err(error),
                },
                None => spec_type_of(ctx.push(value_ty.content), *body),
            },
            Err(error) => Err(error),
        },
        Term::Cond(condition, then_term, else_term) => match spec_type_of(ctx, *condition) {
            Ok(condition_ty) => match spec_expect_ty::<'a>(Ty::Bool, condition_ty) {
                Ok(_) => match spec_type_of(ctx, *then_term) {
                    Ok(then_ty) => match spec_type_of(ctx, *else_term) {
                        Ok(else_ty) => match spec_expect_ty::<'a>(then_ty.content, else_ty) {
                            Ok(_) => Ok(Located { content: then_ty.content, loc }),
                            Err(error) => Err(error),
                        },
                        Err(error) => Err(error),
                    },
                    Err(error) => Err(error),
                },
                Err(error) => Err(error),
            },
            Err(error) => Err(error),
        },
        Term::Sequence(first, second) => match spec_type_of(ctx, *first) {
            Ok(_) => spec_type_of(ctx, *second),
            Err(error) => Err(error),
        },
    }
}

/// The type of a term that stands where nothing is in scope.
pub open spec fn spec_ty_check<'a>(term: Located<Term<'a>>) -> TyResult<'a, Located<Ty>> {
    spec_type_of(Seq::empty(), term)
}

/// A call of what is no function is rejected with the type of the callee,
/// whatever the argument is: the argument is not even looked at. Where the
/// callee is a reference, or itself a call, the error points at the callee.
pub proof fn lemma_callee_must_be_function<'a>(
    ctx: Seq<Ty>,
    callee: Located<Term<'a>>,
    arg: Located<Term<'a>>,
    loc: Location,
)
    requires
        spec_type_of(ctx, callee) is Ok,
        !(spec_type_of(ctx, callee)->Ok_0.content is Arrow),
    ensures
        spec_type_of(ctx, Located { content: Term::App(Box::new(callee), Box::new(arg)), loc })
            == Err::<Located<Ty>, _>(TyError::ExpectedFn(spec_type_of(ctx, callee)->Ok_0)),
        callee.content is Var || callee.content is App ==> TyError::ExpectedFn(
            spec_type_of(ctx, callee)->Ok_0,
        ).spec_loc() == callee.loc,
{
}

/// An arithmetic operator takes two integers to an integer, a comparison
/// two integers to a boolean, and a logical operator two booleans to a
/// boolean; with an operand of another type the operation is a mismatch that
/// names the type that was expected.
pub proof fn lemma_operator_types<'a>(op: BinOp, left: Located<Ty>, right: Located<Ty>)
    requires
        op.spec_kind() != BinOpKind::Equality,
    ensures
        ({
            let operand = if op.spec_kind() == BinOpKind::Logical {
                Ty::Bool
            } else {
                Ty::Int
            };
            let result = if op.spec_kind() == BinOpKind::Arithmetic {
                Ty::Int
            } else {
                Ty::Bool
            };
            spec_binary_ty::<'a>(op, left, right) == (if left.content != operand {
                Err::<Ty, TyError<'a>>(TyError::Unexpected { expected: operand, found: left })
            } else if right.content != operand {
                Err(TyError::Unexpected { expected: operand, found: right })
            } else {
                Ok(result)
            })
        }),
{
}

/// The type of a binary operation on operands of the given types.
pub fn binary_ty<'a>(op: BinOp, left: &Located<Ty>, right: &Located<Ty>) -> (res: TyResult<'a, Ty>)
    ensures
        res == spec_binary_ty::<'a>(op, *left, *right),
{
    match op.kind() {
        BinOpKind::Arithmetic => {
            expect_ty(&Ty::Int, left)?;
            expect_ty(&Ty::Int, right)?;
            Ok(Ty::Int)
        },
        BinOpKind::Comparison => {
            expect_ty(&Ty::Int, left)?;
            expect_ty(&Ty::Int, right)?;
            Ok(Ty::Bool)
        },
        BinOpKind::Logical => {
            expect_ty(&Ty::Bool, left)?;
            expect_ty(&Ty::Bool, right)?;
            Ok(Ty::Bool)
        },
        BinOpKind::Equality => {
            ensure_basic(left)?;
            expect_ty(&left.content, right)?;
            Ok(Ty::Bool)
        },
    }
}

/// The types of the bindings in scope, innermost last.
pub struct Context {
    inner: Vec<Ty>,
}

impl View for Context {
    type V = Seq<Ty>;

    closed spec fn view(&self) -> Seq<Ty> {
        self.inner@
    }
}

impl Context {
    /// A context without bindings.
    pub fn new() -> (ctx: Context)
        ensures
            ctx@ == Seq::<Ty>::empty(),
    {
        Context { inner: Vec::new() }
    }

    /// Brings a binding of type `ty` into scope.
    pub fn push(&mut self, ty: Ty)
        ensures
            final(self)@ == old(self)@.push(ty),
    {
        self.inner.push(ty);
    }

    /// Takes the innermost binding out of scope.
    pub fn pop(&mut self)
        ensures
            old(self)@.len() > 0 ==> final(self)@ == old(self)@.drop_last(),
            old(self)@.len() == 0 ==> final(self)@ == old(self)@,
    {
        let _ = self.inner.pop();
    }

    /// The type of `term` in this context. The context is the same after the
    /// call as before it.
    pub fn type_of<'a>(&mut self, term: &Located<Term<'a>>) -> (res: TyResult<'a, Located<Ty>>)
        ensures
            final(self)@ == old(self)@,
            res == spec_type_of(old(self)@, *term),
        decreases *term, 0nat,
    {
        let loc = term.loc;
        match &term.content {
            Term::Lit(literal) => Ok(Located { content: literal.ty(), loc }),
            Term::Empty => Ok(Located { content: Ty::Unit, loc }),
            Term::Var(name, index) => {
                if *index < self.inner.len() {
                    let at = self.inner.len() - 1 - *index;
                    Ok(Located { content: self.inner[at].clone(), loc })
                } else {
                    Err(TyError::Unbound(Located { content: *name, loc }))
                }
            },
            Term::Abs(binding, body) => {
                match &body.content {
                    Term::Empty => {
                        return Err(TyError::Missing(Located { content: (), loc: body.loc }));
                    },
                    _ => {},
                }
                let body_ty = self.type_in(binding.content.ty.clone(), &**body)?;
                Ok(
                    Located {
                        content: Ty::Arrow(
                            Box::new(binding.content.ty.clone()),
                            Box::new(body_ty.content),
                        ),
                        loc,
                    },
                )
            },
            Term::Ascribe(ty, inner) => {
                let found = self.type_of(&**inner)?;
                expect_ty(&ty.content, &found)?;
                Ok(Located { content: ty.content.clone(), loc })
            },
            Term::Fn { name, is_rec, ty, lambda } => {
                if *is_rec {
                    match ty {
                        Some(declared) => {
                            let found = self.type_in(declared.clone(), &**lambda)?;
                            expect_ty(declared, &found)?;
                            Ok(Located { content: declared.clone(), loc })
                        },
                        None => Err(TyError::Missing(Located { content: (), loc })),
                    }
                } else {
                    match (&ty, &lambda.content) {
                        (None, Term::Empty) => {
                            return Err(TyError::Missing(Located { content: (), loc: lambda.loc }));
                        },
                        _ => {},
                    }
                    let found = self.type_of(&**lambda)?;
                    match ty {
                        Some(declared) => {
                            expect_ty(declared, &found)?;
                            Ok(Located { content: declared.clone(), loc })
                        },
                        None => Ok(Located { content: found.content, loc }),
                    }
                }
            },
            Term::UnaryOp(op, operand) => {
                let found = self.type_of(&**operand)?;
                let ty = match op {
                    UnOp::Neg => Ty::Int,
                    UnOp::Not => Ty::Bool,
                };
                expect_ty(&ty, &found)?;
                Ok(Located { content: ty, loc })
            },
            Term::BinaryOp(op, left, right) => {
                let left_ty = self.type_of(&**left)?;
                let right_ty = self.type_of(&**right)?;
                let ty = binary_ty(*op, &left_ty, &right_ty)?;
                Ok(Located { content: ty, loc })
            },
            Term::App(callee, arg) => {
                let callee_ty = self.type_of(&**callee)?;
                match &callee_ty.content {
                    Ty::Arrow(param, ret) => {
                        let arg_ty = self.type_of(&**arg)?;
                        expect_ty(&**param, &arg_ty)?;
                        Ok(Located { content: (**ret).clone(), loc })
                    },
                    _ => Err(TyError::ExpectedFn(callee_ty)),
                }
            },
            Term::Let(name, annotation, value, body) => {
                let value_ty = self.type_of(&**value)?;
                match annotation {
                    Some(declared) => {
                        expect_ty(&declared.content, &value_ty)?;
                        self.type_in(declared.content.clone(), &**body)
                    },
                    None => self.type_in(value_ty.content, &**body),
                }
            },
            Term::Cond(condition, then_term, else_term) => {
                let condition_ty = self.type_of(&**condition)?;
                expect_ty(&Ty::Bool, &condition_ty)?;
                let then_ty = self.type_of(&**then_term)?;
                let else_ty = self.type_of(&**else_term)?;
                expect_ty(&then_ty.content, &else_ty)?;
                Ok(Located { content: then_ty.content, loc })
            },
            Term::Sequence(first, second) => {
                let _ = self.type_of(&**first)?;
                self.type_of(&**second)
            },
        }
    }

    /// The type of `term` with one more binding, of type `ty`, in scope. The
    /// binding is out of scope again when the call returns.
    pub fn type_in<'a>(&mut self, ty: Ty, term: &Located<Term<'a>>) -> (res: TyResult<
        'a,
        Located<Ty>,
    >)
        ensures
            final(self)@ == old(self)@,
            res == spec_type_of(old(self)@.push(ty), *term),
        decreases *term, 1nat,
    {
        self.inner.push(ty);
        let res = self.type_of(term);
        let _ = self.inner.pop();
        assert(self.inner@ =~= old(self).inner@);
        res
    }
}

/// Assigns a type to a term in which nothing is bound from outside, or
/// reports the first error that the term holds. In a closed term no name is
/// unbound.
pub fn ty_check<'a>(term: &Located<Term<'a>>) -> (res: TyResult<'a, Located<Ty>>)
    ensures
        res == spec_ty_check(*term),
        closed(*term, 0) ==> !(res matches Err(TyError::Unbound(_))),
{
    proof {
        if closed(*term, 0) {
            lemma_closed_is_bound(Seq::empty(), *term);
        }
    }
    let mut ctx = Context::new();
    ctx.type_of(term)
}

/// Where the type checker points, the text is: the type of a term whose
/// locations lie in a text of `len` positions is found at a place in that
/// text, and so is every error.
pub proof fn lemma_type_of_within<'a>(ctx: Seq<Ty>, term: Located<Term<'a>>, len: nat)
    requires
        term_within(term, len),
    ensures
        match spec_type_of(ctx, term) {
            Ok(ty) => ty.loc.within(len),
            Err(error) => error.spec_loc().within(len),
        },
    decreases term,
{
    match term.content {
        Term::Lit(_) => {},
        Term::Empty => {},
        Term::Var(_, _) => {},
        Term::Abs(binding, body) => {
            lemma_type_of_within(ctx.push(binding.content.ty), *body, len);
        },
        Term::Ascribe(_, inner) => {
            lemma_type_of_within(ctx, *inner, len);
        },
        Term::Fn { name, is_rec, ty, lambda } => {
            if is_rec && ty is Some {
                lemma_type_of_within(ctx.push(ty->0), *lambda, len);
            } else {
                lemma_type_of_within(ctx, *lambda, len);
            }
        },
        Term::UnaryOp(_, operand) => {
            lemma_type_of_within(ctx, *operand, len);
        },
        Term::BinaryOp(_, left, right) => {
            lemma_type_of_within(ctx, *left, len);
            lemma_type_of_within(ctx, *right, len);
        },
        Term::App(callee, arg) => {
            lemma_type_of_within(ctx, *callee, len);
            lemma_type_of_within(ctx, *arg, len);
        },
        Term::Let(_, annotation, value, body) => {
            lemma_type_of_within(ctx, *value, len);
            match spec_type_of(ctx, *value) {
                Ok(value_ty) => {
                    match annotation {
                        Some(declared) => {
                            lemma_type_of_within(ctx.push(declared.content), *body, len);
                        },
                        None => {
                            lemma_type_of_within(ctx.push(value_ty.content), *body, len);
                        },
                    }
                },
                Err(_) => {},
            }
        },
        Term::Cond(condition, then_term, else_term) => {
            lemma_type_of_within(ctx, *condition, len);
            lemma_type_of_within(ctx, *then_term, len);
            lemma_type_of_within(ctx, *else_term, len);
        },
        Term::Sequence(first, second) => {
            lemma_type_of_within(ctx, *first, len);
            lemma_type_of_within(ctx, *second, len);
        },
    }
}

/// The type checker finds no unbound name in a term whose references all
/// point at bindings: in a closed term, and in a context of as many types
/// as the term has bindings outside of it.
pub proof fn lemma_closed_is_bound<'a>(ctx: Seq<Ty>, term: Located<Term<'a>>)
    requires
        closed(term, ctx.len()),
    ensures
        !(spec_type_of(ctx, term) matches Err(TyError::Unbound(_))),
    decreases term,
{
    match term.content {
        Term::Lit(_) => {},
        Term::Empty => {},
        Term::Var(_, _) => {},
        Term::Abs(binding, body) => {
            lemma_closed_is_bound(ctx.push(binding.content.ty), *body);
        },
        Term::Ascribe(_, inner) => {
            lemma_closed_is_bound(ctx, *inner);
        },
        Term::Fn { name, is_rec, ty, lambda } => {
            if is_rec {
                if ty is Some {
                    lemma_closed_is_bound(ctx.push(ty->0), *lambda);
                }
            } else {
                lemma_closed_is_bound(ctx, *lambda);
            }
        },
        Term::UnaryOp(_, operand) => {
            lemma_closed_is_bound(ctx, *operand);
        },
        Term::BinaryOp(_, left, right) => {
            lemma_closed_is_bound(ctx, *left);
            lemma_closed_is_bound(ctx, *right);
        },
        Term::App(callee, arg) => {
            lemma_closed_is_bound(ctx, *callee);
            lemma_closed_is_bound(ctx, *arg);
        },
        Term::Let(_, annotation, value, body) => {
            lemma_closed_is_bound(ctx, *value);
            match spec_type_of(ctx, *value) {
                Ok(value_ty) => {
                    match annotation {
                        Some(declared) => {
                            lemma_closed_is_bound(ctx.push(declared.content), *body);
                        },
                        None => {
                            lemma_closed_is_bound(ctx.push(value_ty.content), *body);
                        },
                    }
                },
                Err(_) => {},
            }
        },
        Term::Cond(condition, then_term, else_term) => {
            lemma_closed_is_bound(ctx, *condition);
            lemma_closed_is_bound(ctx, *then_term);
            lemma_closed_is_bound(ctx, *else_term);
        },
        Term::Sequence(first, second) => {
            lemma_closed_is_bound(ctx, *first);
            lemma_closed_is_bound(ctx, *second);
        },
    }
}

} // verus!
