//! The machine: a tree-walking evaluator for low-level terms.
//!
//! The machine keeps an environment of the values that are in scope. A function
//! evaluates to a closure: its code with the environment it was made in. A
//! recursive definition puts an entry into the environment that stands for
//! the definition itself, and that is resolved when it is looked up.
//!
//! Integers are 128 bits wide. An operation whose result does not fit, a
//! division by zero and a shift by less than 0 or more than 127 bits are
//! faults, as is a chain of calls that is deeper than the machine's limit.
use vstd::prelude::*;
use vstd::string::StringExecFns;

use crate::ast::{BinOp, Literal, UnOp};
use crate::lir::Term;
use crate::ty::Ty;

pub mod soundness;

verus! {

/// What a term evaluates to.
#[derive(Debug, Eq, PartialEq)]
pub enum Value {
    Lit(Literal),
    /// A function: the type of its parameter, its body, and the environment
    /// that the body is evaluated in, to which the argument is added.
    Closure(Ty, Box<Term>, Box<Env>),
}

/// The values in scope, innermost first.
#[derive(Debug, Eq, PartialEq)]
pub enum Env {
    Empty,
    /// A value, in front of the rest of the environment.
    Bind(Value, Box<Env>),
    /// A recursive definition of the given type, in front of the rest of the
    /// environment: its value is that of the term, evaluated in this same
    /// environment.
    Rec(Ty, Box<Term>, Box<Env>),
}

/// Why an evaluation did not give a value.
#[derive(Debug, Clone, Copy, Eq, PartialEq, Structural)]
pub enum Fault {
    /// A reference points outside the environment.
    Unbound,
    /// Something that is no function was applied to an argument.
    NotAFunction,
    /// An operator, or a conditional, got a value of a kind it does not take.
    BadOperand,
    DivisionByZero,
    /// The result of an integer operation does not fit into 128 bits, or a
    /// shift is by less than 0 or more than 127 bits.
    Overflow,
    /// The calls are nested deeper than the machine's limit.
    DepthLimit,
}

impl Fault {
    /// True for the faults that a well-typed program cannot have: they come
    /// from a term that is put together wrongly, not from the values it meets.
    pub open spec fn spec_is_stuck(self) -> bool {
        self is Unbound || self is NotAFunction || self is BadOperand
    }

    pub fn is_stuck(&self) -> (stuck: bool)
        ensures
            stuck == self.spec_is_stuck(),
    {
        match self {
            Fault::Unbound | Fault::NotAFunction | Fault::BadOperand => true,
            _ => false,
        }
    }
}

impl Fault {
    pub open spec fn spec_message(self) -> Seq<char> {
        match self {
            Fault::Unbound => "Reference to nothing"@,
            Fault::NotAFunction => "Call of what is no function"@,
            Fault::BadOperand => "Operand of the wrong kind"@,
            Fault::DivisionByZero => "Division by zero"@,
            Fault::Overflow => "Integer overflow"@,
            Fault::DepthLimit => "Calls nested too deep"@,
        }
    }

    /// The fault in words.
    pub fn message(&self) -> (text: &'static str)
        ensures
            text@ == self.spec_message(),
    {
        match self {
            Fault::Unbound => "Reference to nothing",
            Fault::NotAFunction => "Call of what is no function",
            Fault::BadOperand => "Operand of the wrong kind",
            Fault::DivisionByZero => "Division by zero",
            Fault::Overflow => "Integer overflow",
            Fault::DepthLimit => "Calls nested too deep",
        }
    }
}

impl Value {
    pub open spec fn spec_text(self) -> Seq<char> {
        match self {
            Value::Lit(literal) => literal.spec_text(),
            Value::Closure(_, _, _) => "<function>"@,
        }
    }

    /// The value as it is shown: a literal as it is written, and a function
    /// without its inside.
    pub fn to_text(&self) -> (text: String)
        ensures
            text@ == self.spec_text(),
    {
        match self {
            Value::Lit(literal) => literal.to_text(),
            Value::Closure(_, _, _) => String::from_str("<function>"),
        }
    }

    /// A deep copy of the value.
    pub fn copy(&self) -> (copy: Value)
        ensures
            copy == *self,
        decreases *self,
    {
        match self {
            Value::Lit(literal) => Value::Lit(*literal),
            Value::Closure(param, body, env) => Value::Closure(
                param.clone(),
                Box::new((**body).clone()),
                Box::new((**env).copy()),
            ),
        }
    }
}

impl Env {
    /// A deep copy of the environment.
    pub fn copy(&self) -> (copy: Env)
        ensures
            copy == *self,
        decreases *self,
    {
        match self {
            Env::Empty => Env::Empty,
            Env::Bind(value, rest) => Env::Bind(value.copy(), Box::new((**rest).copy())),
            Env::Rec(ty, body, rest) => Env::Rec(
                ty.clone(),
                Box::new((**body).clone()),
                Box::new((**rest).copy()),
            ),
        }
    }
}

impl Clone for Value {
    fn clone(&self) -> (copy: Value)
        ensures
            copy == *self,
    {
        self.copy()
    }
}

impl Clone for Env {
    fn clone(&self) -> (copy: Env)
        ensures
            copy == *self,
    {
        self.copy()
    }
}

/// What a reference finds in an environment.
pub enum Slot {
    /// A value.
    Value(Value),
    /// A recursive definition, with the environment that it stands in front
    /// of: its type, its term and the rest of the environment.
    Rec(Ty, Box<Term>, Box<Env>),
    /// Nothing: the reference points outside the environment.
    Nothing,
}

/// What the reference `index` finds in `env`: entry number `index`, counted
/// from the innermost.
pub open spec fn spec_find(env: Env, index: usize) -> Slot
    decreases env,
{
    match env {
        Env::Empty => Slot::Nothing,
        Env::Bind(value, rest) => if index == 0 {
            Slot::Value(value)
        } else {
            spec_find(*rest, (index - 1) as usize)
        },
        Env::Rec(ty, body, rest) => if index == 0 {
            Slot::Rec(ty, body, rest)
        } else {
            spec_find(*rest, (index - 1) as usize)
        },
    }
}

/// Looks up what the reference `index` finds in `env`.
pub fn find(env: &Env, index: usize) -> (slot: Slot)
    ensures
        slot == spec_find(*env, index),
    decreases *env,
{
    match env {
        Env::Empty => Slot::Nothing,
        Env::Bind(value, rest) => {
            if index == 0 {
                Slot::Value(value.copy())
            } else {
                find(&**rest, index - 1)
            }
        },
        Env::Rec(ty, body, rest) => {
            if index == 0 {
                Slot::Rec(ty.clone(), Box::new((**body).clone()), Box::new((**rest).copy()))
            } else {
                find(&**rest, index - 1)
            }
        },
    }
}

/// The quotient of `a` by `b`, rounded towards zero.
pub open spec fn trunc_div(a: int, b: int) -> int
    recommends
        b != 0,
{
    let quotient = (if a >= 0 { a } else { -a }) / (if b >= 0 { b } else { -b });
    if (a >= 0) == (b >= 0) {
        quotient
    } else {
        -quotient
    }
}

/// The remainder that goes with [`trunc_div`]: it has the sign of `a`.
pub open spec fn trunc_rem(a: int, b: int) -> int
    recommends
        b != 0,
{
    let remainder = (if a >= 0 { a } else { -a }) % (if b >= 0 { b } else { -b });
    if a >= 0 {
        remainder
    } else {
        -remainder
    }
}

/// True when `n` is the value of a 128-bit integer.
pub open spec fn fits(n: int) -> bool {
    i128::MIN <= n <= i128::MAX
}

/// The result of a binary operator on two integers.
pub open spec fn spec_arith(op: BinOp, a: i128, b: i128) -> Result<Literal, Fault> {
    match op {
        BinOp::Add => if fits(a + b) {
            Ok(Literal::Number((a + b) as i128))
        } else {
            Err(Fault::Overflow)
        },
        BinOp::Sub => if fits(a - b) {
            Ok(Literal::Number((a - b) as i128))
        } else {
            Err(Fault::Overflow)
        },
        BinOp::Mul => if fits(a * b) {
            Ok(Literal::Number((a * b) as i128))
        } else {
            Err(Fault::Overflow)
        },
        BinOp::Div => if b == 0 {
            Err(Fault::DivisionByZero)
        } else if fits(trunc_div(a as int, b as int)) {
            Ok(Literal::Number(trunc_div(a as int, b as int) as i128))
        } else {
            Err(Fault::Overflow)
        },
        BinOp::Rem => if b == 0 {
            Err(Fault::DivisionByZero)
        } else if a == i128::MIN && b == -1 {
            Err(Fault::Overflow)
        } else {
            Ok(Literal::Number(trunc_rem(a as int, b as int) as i128))
        },
        BinOp::BitAnd => Ok(Literal::Number(a & b)),
        BinOp::BitOr => Ok(Literal::Number(a | b)),
        BinOp::BitXor => Ok(Literal::Number(a ^ b)),
        BinOp::Shl => if 0 <= b < 128 {
            Ok(Literal::Number(a << b))
        } else {
            Err(Fault::Overflow)
        },
        BinOp::Shr => if 0 <= b < 128 {
            Ok(Literal::Number(a >> b))
        } else {
            Err(Fault::Overflow)
        },
        BinOp::Eq => Ok(Literal::Bool(a == b)),
        BinOp::Neq => Ok(Literal::Bool(a != b)),
        BinOp::Lt => Ok(Literal::Bool(a < b)),
        BinOp::Gt => Ok(Literal::Bool(a > b)),
        BinOp::Lte => Ok(Literal::Bool(a <= b)),
        BinOp::Gte => Ok(Literal::Bool(a >= b)),
        BinOp::And | BinOp::Or => Err(Fault::BadOperand),
    }
}

/// The result of a binary operator on two booleans.
pub open spec fn spec_logic(op: BinOp, a: bool, b: bool) -> Result<Literal, Fault> {
    match op {
        BinOp::And => Ok(Literal::Bool(a && b)),
        BinOp::Or => Ok(Literal::Bool(a || b)),
        BinOp::Eq => Ok(Literal::Bool(a == b)),
        BinOp::Neq => Ok(Literal::Bool(a != b)),
        _ => Err(Fault::BadOperand),
    }
}

/// The result of a binary operator on two values.
pub open spec fn spec_binary(op: BinOp, left: Value, right: Value) -> Result<Value, Fault> {
    let result = match (left, right) {
        (Value::Lit(Literal::Number(a)), Value::Lit(Literal::Number(b))) => spec_arith(op, a, b),
        (Value::Lit(Literal::Bool(a)), Value::Lit(Literal::Bool(b))) => spec_logic(op, a, b),
        (Value::Lit(Literal::Unit), Value::Lit(Literal::Unit)) => match op {
            BinOp::Eq => Ok(Literal::Bool(true)),
            BinOp::Neq => Ok(Literal::Bool(false)),
            _ => Err(Fault::BadOperand),
        },
        _ => Err(Fault::BadOperand),
    };
    match result {
        Ok(literal) => Ok(Value::Lit(literal)),
        Err(fault) => Err(fault),
    }
}

/// The result of a unary operator on a value.
pub open spec fn spec_unary(op: UnOp, operand: Value) -> Result<Value, Fault> {
    match (op, operand) {
        (UnOp::Neg, Value::Lit(Literal::Number(n))) => if n == i128::MIN {
            Err(Fault::Overflow)
        } else {
            Ok(Value::Lit(Literal::Number((-n) as i128)))
        },
        (UnOp::Not, Value::Lit(Literal::Bool(b))) => Ok(Value::Lit(Literal::Bool(!b))),
        _ => Err(Fault::BadOperand),
    }
}

/// True when the left operand alone decides the operation, so that the right
/// operand is not evaluated: `false && ..` and `true || ..`.
pub open spec fn spec_decides(op: BinOp, left: Value) -> bool {
    (op == BinOp::And && left == Value::Lit(Literal::Bool(false))) || (op == BinOp::Or && left
        == Value::Lit(Literal::Bool(true)))
}

/// The value of `term` in `env`, or the fault that ends the evaluation,
/// where calls may be nested `depth` deep.
///
/// - A literal is its own value, and a reference has the value it finds.
/// - An abstraction is a closure over `env`.
/// - A `Fix` is the value of its term with the definition itself in scope.
/// - The operand of a unary operator is evaluated first; of a binary
///   operator the left operand, then, unless the left one decides, the right.
/// - In an application the callee is evaluated first and must be a closure;
///   then the argument; then the closure's body, with the argument in front
///   of the closure's environment. This is a call: it takes one of `depth`.
/// - A `let` evaluates its value and then its body with the value in scope.
/// - A conditional evaluates its condition and then one of its branches.
/// - A sequence evaluates its first term, drops the value, and evaluates the second.
pub open spec fn spec_eval(term: Term, env: Env, depth: nat) -> Result<Value, Fault>
    decreases depth, term,
{
    match term {
        Term::Lit(literal) => Ok(Value::Lit(literal)),
        Term::Var(index) => match spec_find(env, index) {
            Slot::Value(value) => Ok(value),
            Slot::Rec(ty, body, rest) => if depth == 0 {
                Err(Fault::DepthLimit)
            } else {
                spec_eval(*body, Env::Rec(ty, body, rest), (depth - 1) as nat)
            },
            Slot::Nothing => Err(Fault::Unbound),
        },
        Term::Abs(param, body) => Ok(Value::Closure(param, body, Box::new(env))),
        Term::Fix(ty, body) => spec_eval(*body, Env::Rec(ty, body, Box::new(env)), depth),
        Term::UnaryOp(op, operand) => match spec_eval(*operand, env, depth) {
            Ok(value) => spec_unary(op, value),
            Err(fault) => Err(fault),
        },
        Term::BinaryOp(op, left, right) => match spec_eval(*left, env, depth) {
            Ok(left) => if spec_decides(op, left) {
                Ok(left)
            } else {
                match spec_eval(*right, env, depth) {
                    Ok(right) => spec_binary(op, left, right),
                    Err(fault) => Err(fault),
                }
            },
            Err(fault) => Err(fault),
        },
        Term::App(callee, arg) => match spec_eval(*callee, env, depth) {
            Ok(Value::Closure(_, body, captured)) => match spec_eval(*arg, env, depth) {
                Ok(arg) => if depth == 0 {
                    Err(Fault::DepthLimit)
                } else {
                    spec_eval(*body, Env::Bind(arg, captured), (depth - 1) as nat)
                },
                Err(fault) => Err(fault),
            },
            Ok(_) => Err(Fault::NotAFunction),
            Err(fault) => Err(fault),
        },
        Term::Let(value, body) => match spec_eval(*value, env, depth) {
            Ok(value) => spec_eval(*body, Env::Bind(value, Box::new(env)), depth),
            Err(fault) => Err(fault),
        },
        Term::Cond(condition, then_term, else_term) => match spec_eval(*condition, env, depth) {
            Ok(Value::Lit(Literal::Bool(true))) => spec_eval(*then_term, env, depth),
            Ok(Value::Lit(Literal::Bool(false))) => spec_eval(*else_term, env, depth),
            Ok(_) => Err(Fault::BadOperand),
            Err(fault) => Err(fault),
        },
        Term::Sequence(first, second) => match spec_eval(*first, env, depth) {
            Ok(_) => spec_eval(*second, env, depth),
            Err(fault) => Err(fault),
        },
    }
}

/// Divides two integers, rounding towards zero.
pub fn divide(a: i128, b: i128) -> (res: Result<Literal, Fault>)
    ensures
        res == spec_arith(BinOp::Div, a, b),
{
    if b == 0 {
        Err(Fault::DivisionByZero)
    } else {
        match a.checked_div(b) {
            Some(quotient) => Ok(Literal::Number(quotient)),
            None => Err(Fault::Overflow),
        }
    }
}

/// The remainder of the division of two integers that rounds towards zero.
pub fn remainder(a: i128, b: i128) -> (res: Result<Literal, Fault>)
    ensures
        res == spec_arith(BinOp::Rem, a, b),
{
    if b == 0 {
        Err(Fault::DivisionByZero)
    } else {
        match a.checked_rem(b) {
            Some(remainder) => Ok(Literal::Number(remainder)),
            None => {
                Err(Fault::Overflow)
            },
        }
    }
}

/// Applies a binary operator to two integers.
pub fn arith(op: BinOp, a: i128, b: i128) -> (res: Result<Literal, Fault>)
    ensures
        res == spec_arith(op, a, b),
{
    match op {
        BinOp::Add => match a.checked_add(b) {
            Some(sum) => Ok(Literal::Number(sum)),
            None => Err(Fault::Overflow),
        },
        BinOp::Sub => match a.checked_sub(b) {
            Some(difference) => Ok(Literal::Number(difference)),
            None => Err(Fault::Overflow),
        },
        BinOp::Mul => match a.checked_mul(b) {
            Some(product) => Ok(Literal::Number(product)),
            None => Err(Fault::Overflow),
        },
        BinOp::Div => divide(a, b),
        BinOp::Rem => remainder(a, b),
        BinOp::BitAnd => Ok(Literal::Number(a & b)),
        BinOp::BitOr => Ok(Literal::Number(a | b)),
        BinOp::BitXor => Ok(Literal::Number(a ^ b)),
        BinOp::Shl => {
            if 0 <= b && b < 128 {
                Ok(Literal::Number(a << b))
            } else {
                Err(Fault::Overflow)
            }
        },
        BinOp::Shr => {
            if 0 <= b && b < 128 {
                Ok(Literal::Number(a >> b))
            } else {
                Err(Fault::Overflow)
            }
        },
        BinOp::Eq => Ok(Literal::Bool(a == b)),
        BinOp::Neq => Ok(Literal::Bool(a != b)),
        BinOp::Lt => Ok(Literal::Bool(a < b)),
        BinOp::Gt => Ok(Literal::Bool(a > b)),
        BinOp::Lte => Ok(Literal::Bool(a <= b)),
        BinOp::Gte => Ok(Literal::Bool(a >= b)),
        BinOp::And | BinOp::Or => Err(Fault::BadOperand),
    }
}

/// Applies a binary operator to two booleans.
pub fn logic(op: BinOp, a: bool, b: bool) -> (res: Result<Literal, Fault>)
    ensures
        res == spec_logic(op, a, b),
{
    match op {
        BinOp::And => Ok(Literal::Bool(a && b)),
        BinOp::Or => Ok(Literal::Bool(a || b)),
        BinOp::Eq => Ok(Literal::Bool(a == b)),
        BinOp::Neq => Ok(Literal::Bool(a != b)),
        _ => Err(Fault::BadOperand),
    }
}

/// Applies a binary operator to two values.
pub fn binary(op: BinOp, left: &Value, right: &Value) -> (res: Result<Value, Fault>)
    ensures
        res == spec_binary(op, *left, *right),
{
    let result = match (left, right) {
        (Value::Lit(Literal::Number(a)), Value::Lit(Literal::Number(b))) => arith(op, *a, *b),
        (Value::Lit(Literal::Bool(a)), Value::Lit(Literal::Bool(b))) => logic(op, *a, *b),
        (Value::Lit(Literal::Unit), Value::Lit(Literal::Unit)) => match op {
            BinOp::Eq => Ok(Literal::Bool(true)),
            BinOp::Neq => Ok(Literal::Bool(false)),
            _ => Err(Fault::BadOperand),
        },
        _ => Err(Fault::BadOperand),
    };
    match result {
        Ok(literal) => Ok(Value::Lit(literal)),
        Err(fault) => Err(fault),
    }
}

/// Applies a unary operator to a value.
pub fn unary(op: UnOp, operand: &Value) -> (res: Result<Value, Fault>)
    ensures
        res == spec_unary(op, *operand),
{
    match (op, operand) {
        (UnOp::Neg, Value::Lit(Literal::Number(n))) => {
            if *n == i128::MIN {
                Err(Fault::Overflow)
            } else {
                Ok(Value::Lit(Literal::Number(-*n)))
            }
        },
        (UnOp::Not, Value::Lit(Literal::Bool(b))) => Ok(Value::Lit(Literal::Bool(!*b))),
        _ => Err(Fault::BadOperand),
    }
}

/// True when the left operand alone decides the operation.
pub fn decides(op: BinOp, left: &Value) -> (decided: bool)
    ensures
        decided == spec_decides(op, *left),
{
    match (op, left) {
        (BinOp::And, Value::Lit(Literal::Bool(false))) => true,
        (BinOp::Or, Value::Lit(Literal::Bool(true))) => true,
        _ => false,
    }
}

/// Evaluates `term` in `env`, where calls may be nested `depth` deep.
pub fn eval(term: &Term, env: &Env, depth: usize) -> (res: Result<Value, Fault>)
    ensures
        res == spec_eval(*term, *env, depth as nat),
    decreases depth, *term,
{
    match term {
        Term::Lit(literal) => Ok(Value::Lit(*literal)),
        Term::Var(index) => match find(env, *index) {
            Slot::Value(value) => Ok(value),
            Slot::Rec(ty, body, rest) => {
                if depth == 0 {
                    Err(Fault::DepthLimit)
                } else {
                    let code = (*body).clone();
                    let own = Env::Rec(ty, body, rest);
                    eval(&code, &own, depth - 1)
                }
            },
            Slot::Nothing => Err(Fault::Unbound),
        },
        Term::Abs(param, body) => Ok(
            Value::Closure(param.clone(), Box::new((**body).clone()), Box::new(env.copy())),
        ),
        Term::Fix(ty, body) => {
            let own = Env::Rec(ty.clone(), Box::new((**body).clone()), Box::new(env.copy()));
            eval(&**body, &own, depth)
        },
        Term::UnaryOp(op, operand) => {
            let value = eval(&**operand, env, depth)?;
            unary(*op, &value)
        },
        Term::BinaryOp(op, left, right) => {
            let left = eval(&**left, env, depth)?;
            if decides(*op, &left) {
                Ok(left)
            } else {
                let right = eval(&**right, env, depth)?;
                binary(*op, &left, &right)
            }
        },
        Term::App(callee, arg) => {
            match eval(&**callee, env, depth)? {
                Value::Closure(_, body, captured) => {
                    let arg = eval(&**arg, env, depth)?;
                    if depth == 0 {
                        Err(Fault::DepthLimit)
                    } else {
                        let called = Env::Bind(arg, captured);
                        eval(&*body, &called, depth - 1)
                    }
                },
                _ => Err(Fault::NotAFunction),
            }
        },
        Term::Let(value, body) => {
            let value = eval(&**value, env, depth)?;
            let inner = Env::Bind(value, Box::new(env.copy()));
            eval(&**body, &inner, depth)
        },
        Term::Cond(condition, then_term, else_term) => {
            match eval(&**condition, env, depth)? {
                Value::Lit(Literal::Bool(true)) => eval(&**then_term, env, depth),
                Value::Lit(Literal::Bool(false)) => eval(&**else_term, env, depth),
                _ => Err(Fault::BadOperand),
            }
        },
        Term::Sequence(first, second) => {
            let _ = eval(&**first, env, depth)?;
            eval(&**second, env, depth)
        },
    }
}

/// The depth to which the default machine lets calls nest.
pub const DEFAULT_DEPTH_LIMIT: usize = 128;

/// The machine, with the depth to which it lets calls nest.
#[derive(Debug, Clone, Copy, PartialEq, Eq)]
pub struct Machine {
    pub depth_limit: usize,
}

impl Default for Machine {
    fn default() -> (machine: Machine)
        ensures
            machine.depth_limit == DEFAULT_DEPTH_LIMIT,
    {
        Machine { depth_limit: DEFAULT_DEPTH_LIMIT }
    }
}

impl Machine {
    /// A machine that lets calls nest `depth_limit` deep.
    pub fn new(depth_limit: usize) -> (machine: Machine)
        ensures
            machine.depth_limit == depth_limit,
    {
        Machine { depth_limit }
    }

    /// The result of evaluating a term in which nothing is bound from outside.
    pub open spec fn spec_evaluate(self, term: Term) -> Result<Value, Fault> {
        spec_eval(term, Env::Empty, self.depth_limit as nat)
    }

    /// Evaluates a term in which nothing is bound from outside. The
    /// evaluation of a term that has a type is sound: it gives a value of that
    /// type, or ends in a fault that is not of the stuck kind.
    pub fn evaluate(&self, term: Term) -> (res: Result<Value, Fault>)
        ensures
            res == self.spec_evaluate(term),
            crate::lir::spec_type_of(Seq::empty(), term) matches Some(ty) ==> soundness::sound(
                res,
                ty,
            ),
    {
        proof {
            if crate::lir::spec_type_of(Seq::empty(), term) is Some {
                soundness::lemma_eval_sound(term, Env::Empty, self.depth_limit as nat);
            }
        }
        eval(&term, &Env::Empty, self.depth_limit)
    }
}

} // verus!
