//! Type soundness: the evaluation of a well-typed term does not get stuck.
//!
//! A value has at most one type, because every binder of a low-level term
//! carries its type: [`value_ty`] computes it. An environment is well formed
//! when each of its entries has a type; [`env_ctx`] gives those types.
//! [`lemma_eval_sound`] shows that a term of type `T`, evaluated in a well
//! formed environment whose types are those that the term was typed with,
//! gives a value of type `T` or ends in a fault that is not of the stuck kind.
use vstd::prelude::*;

use crate::ast::{BinOp, Literal};
use crate::lir;
use crate::location::Located;
use crate::machine::{spec_eval, spec_find, Env, Fault, Machine, Slot, Value};
use crate::mir;
use crate::ty::check::spec_ty_check;
use crate::ty::Ty;

verus! {

/// The type of a value, if it has one. A closure has a function type if its
/// environment is well formed and its body has a type with the parameter in scope.
pub open spec fn value_ty(value: Value) -> Option<Ty>
    decreases value,
{
    match value {
        Value::Lit(literal) => Some(literal.spec_ty()),
        Value::Closure(param, body, env) => match env_ctx(*env) {
            Some(ctx) => match lir::spec_type_of(ctx.push(param), *body) {
                Some(ret) => Some(Ty::Arrow(Box::new(param), Box::new(ret))),
                None => None,
            },
            None => None,
        },
    }
}

/// The types of the entries of a well formed environment, innermost last;
/// `None` if the environment is not well formed. A recursive definition is
/// well formed if its term has the declared type where the definition itself
/// is in scope at that type.
pub open spec fn env_ctx(env: Env) -> Option<Seq<Ty>>
    decreases env,
{
    match env {
        Env::Empty => Some(Seq::empty()),
        Env::Bind(value, rest) => match (env_ctx(*rest), value_ty(value)) {
            (Some(ctx), Some(ty)) => Some(ctx.push(ty)),
            _ => None,
        },
        Env::Rec(ty, body, rest) => match env_ctx(*rest) {
            Some(ctx) => if lir::spec_type_of(ctx.push(ty), *body) == Some(ty) {
                Some(ctx.push(ty))
            } else {
                None
            },
            None => None,
        },
    }
}

/// What an evaluation may end in if the term has the type `ty`: a value of
/// that type, or a fault that is not of the stuck kind.
pub open spec fn sound(result: Result<Value, Fault>, ty: Ty) -> bool {
    match result {
        Ok(value) => value_ty(value) == Some(ty),
        Err(fault) => !fault.spec_is_stuck(),
    }
}

/// A reference into a well formed environment finds an entry exactly when it
/// points inside it, and the entry has the type that the environment gives it.
pub proof fn lemma_find_sound(env: Env, index: usize)
    requires
        env_ctx(env) is Some,
    ensures
        match spec_find(env, index) {
            Slot::Value(value) => index < env_ctx(env)->0.len() && value_ty(value) == Some(
                env_ctx(env)->0[env_ctx(env)->0.len() - 1 - index],
            ),
            Slot::Rec(ty, body, rest) => index < env_ctx(env)->0.len() && ty == env_ctx(
                env,
            )->0[env_ctx(env)->0.len() - 1 - index] && env_ctx(Env::Rec(ty, body, rest)) is Some
                && lir::spec_type_of(env_ctx(Env::Rec(ty, body, rest))->0, *body) == Some(ty),
            Slot::Nothing => index >= env_ctx(env)->0.len(),
        },
    decreases env,
{
    match env {
        Env::Empty => {},
        Env::Bind(value, rest) => {
            if index != 0 {
                lemma_find_sound(*rest, (index - 1) as usize);
            }
        },
        Env::Rec(ty, body, rest) => {
            if index != 0 {
                lemma_find_sound(*rest, (index - 1) as usize);
            }
        },
    }
}

/// The evaluation of a well-typed term in a well formed environment of the
/// types that the term was typed with is sound, to whatever depth calls may nest.
pub proof fn lemma_eval_sound(term: lir::Term, env: Env, depth: nat)
    requires
        env_ctx(env) is Some,
        lir::spec_type_of(env_ctx(env)->0, term) is Some,
    ensures
        sound(spec_eval(term, env, depth), lir::spec_type_of(env_ctx(env)->0, term)->0),
    decreases depth, term,
{
    let ctx = env_ctx(env)->0;
    match term {
        lir::Term::Lit(_) => {},
        lir::Term::Var(index) => {
            lemma_find_sound(env, index);
            match spec_find(env, index) {
                Slot::Rec(ty, body, rest) => {
                    if depth > 0 {
                        lemma_eval_sound(*body, Env::Rec(ty, body, rest), (depth - 1) as nat);
                    }
                },
                _ => {},
            }
        },
        lir::Term::Abs(_, _) => {},
        lir::Term::Fix(ty, body) => {
            lemma_eval_sound(*body, Env::Rec(ty, body, Box::new(env)), depth);
        },
        lir::Term::UnaryOp(_, operand) => {
            lemma_eval_sound(*operand, env, depth);
        },
        lir::Term::BinaryOp(_, left, right) => {
            lemma_eval_sound(*left, env, depth);
            lemma_eval_sound(*right, env, depth);
        },
        lir::Term::App(callee, arg) => {
            lemma_eval_sound(*callee, env, depth);
            lemma_eval_sound(*arg, env, depth);
            match spec_eval(*callee, env, depth) {
                Ok(Value::Closure(_, body, captured)) => {
                    match spec_eval(*arg, env, depth) {
                        Ok(arg) => {
                            if depth > 0 {
                                lemma_eval_sound(
                                    *body,
                                    Env::Bind(arg, captured),
                                    (depth - 1) as nat,
                                );
                            }
                        },
                        Err(_) => {},
                    }
                },
                _ => {},
            }
        },
        lir::Term::Let(value, body) => {
            lemma_eval_sound(*value, env, depth);
            match spec_eval(*value, env, depth) {
                Ok(value) => {
                    lemma_eval_sound(*body, Env::Bind(value, Box::new(env)), depth);
                },
                Err(_) => {},
            }
        },
        lir::Term::Cond(condition, then_term, else_term) => {
            lemma_eval_sound(*condition, env, depth);
            lemma_eval_sound(*then_term, env, depth);
            lemma_eval_sound(*else_term, env, depth);
        },
        lir::Term::Sequence(first, second) => {
            lemma_eval_sound(*first, env, depth);
            lemma_eval_sound(*second, env, depth);
        },
    }
}

/// Soundness of the pipeline: if the type checker accepts a mid-level term,
/// the evaluation of its lowering, to whatever depth calls may nest, ends in
/// a value of the type that the checker found, or in a fault that is not of
/// the stuck kind. It never meets a reference that points outside the
/// environment, never applies what is no function, and never hands an
/// operator a value of the wrong kind.
pub proof fn lemma_well_typed_is_sound(term: Located<mir::Term<'_>>, depth: nat)
    requires
        spec_ty_check(term) is Ok,
    ensures
        sound(
            spec_eval(lir::Term::spec_from_mir(term), Env::Empty, depth),
            spec_ty_check(term)->Ok_0.content,
        ),
{
    lir::lemma_lowering_keeps_type(Seq::empty(), term);
    lemma_eval_sound(lir::Term::spec_from_mir(term), Env::Empty, depth);
}

/// A value of a basic type is the literal of that type.
pub proof fn lemma_basic_value_is_literal(value: Value, ty: Ty)
    requires
        value_ty(value) == Some(ty),
        ty.spec_is_basic(),
    ensures
        value is Lit,
        value->Lit_0.spec_ty() == ty,
{
}

/// Evaluation is a function: two evaluations of one term by one machine end
/// in the same way.
pub proof fn lemma_evaluation_is_deterministic(
    machine: Machine,
    term: lir::Term,
    first: Result<Value, Fault>,
    second: Result<Value, Fault>,
)
    requires
        first == machine.spec_evaluate(term),
        second == machine.spec_evaluate(term),
    ensures
        first == second,
{
}

/// Where the left operand decides a logical operation, the right operand is
/// not evaluated: `false && ..` is false and `true || ..` is true, whatever
/// stands on the right, even what would end in a fault.
pub proof fn lemma_short_circuit(left: lir::Term, right: lir::Term, env: Env, depth: nat)
    ensures
        spec_eval(left, env, depth) == Ok::<Value, Fault>(Value::Lit(Literal::Bool(false)))
            ==> spec_eval(
            lir::Term::BinaryOp(BinOp::And, Box::new(left), Box::new(right)),
            env,
            depth,
        ) == Ok::<Value, Fault>(Value::Lit(Literal::Bool(false))),
        spec_eval(left, env, depth) == Ok::<Value, Fault>(Value::Lit(Literal::Bool(true)))
            ==> spec_eval(
            lir::Term::BinaryOp(BinOp::Or, Box::new(left), Box::new(right)),
            env,
            depth,
        ) == Ok::<Value, Fault>(Value::Lit(Literal::Bool(true))),
{
}

/// In a call the callee is evaluated first, and what is no function ends
/// the evaluation before the argument is evaluated.
pub proof fn lemma_callee_is_evaluated_first(
    callee: lir::Term,
    arg: lir::Term,
    env: Env,
    depth: nat,
)
    ensures
        spec_eval(callee, env, depth) matches Ok(Value::Lit(_)) ==> spec_eval(
            lir::Term::App(Box::new(callee), Box::new(arg)),
            env,
            depth,
        ) == Err::<Value, Fault>(Fault::NotAFunction),
        spec_eval(callee, env, depth) matches Err(fault) ==> spec_eval(
            lir::Term::App(Box::new(callee), Box::new(arg)),
            env,
            depth,
        ) == Err::<Value, Fault>(fault),
{
}

} // verus!
