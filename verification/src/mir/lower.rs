//! Lowering of the syntax tree to mid-level terms.
use vstd::prelude::*;

use crate::analysis::{occurs_unshadowed, RecursionChecker};
use crate::ast::{node_within, nodes_within, Block, Literal, Name, Node};
use crate::location::{Located, Location};
use crate::mir::{closed, term_within, Term};
use crate::ty::{arrows, copy_annotation, copy_located_ty, spec_arrows, Binding, Ty, TyError, TyResult};

verus! {

/// The binding that a reference to `name` means in `scope`, whose innermost
/// name is the last: the number of bindings between the reference and the
/// innermost binding of that name, or `None` if the scope has none.
pub open spec fn spec_resolve(scope: Seq<Name<'_>>, name: Seq<char>) -> Option<usize>
    decreases scope.len(),
{
    if scope.len() == 0 {
        None
    } else if scope.last()@ == name {
        Some(0)
    } else {
        match spec_resolve(scope.drop_last(), name) {
            Some(index) => Some((index + 1) as usize),
            None => None,
        }
    }
}

/// The index that [`spec_resolve`] finds counts bindings of the scope, and the
/// binding it points at has the name; no binding nearer than that has it.
pub proof fn lemma_resolve(scope: Seq<Name<'_>>, name: Seq<char>)
    requires
        scope.len() <= usize::MAX,
    ensures
        match spec_resolve(scope, name) {
            Some(index) => index < scope.len() && scope[scope.len() - 1 - index]@ == name
                && forall|nearer: int|
                    0 <= nearer < index ==> (#[trigger] scope[scope.len() - 1 - nearer])@ != name,
            None => forall|i: int| 0 <= i < scope.len() ==> (#[trigger] scope[i])@ != name,
        },
    decreases scope.len(),
{
    if scope.len() > 0 && scope.last()@ != name {
        let rest = scope.drop_last();
        lemma_resolve(rest, name);
        match spec_resolve(rest, name) {
            Some(index) => {
                assert forall|nearer: int| 0 <= nearer < index + 1 implies (
                #[trigger] scope[scope.len() - 1 - nearer])@ != name by {
                    if nearer > 0 {
                        assert(scope[scope.len() - 1 - nearer] == rest[rest.len() - 1 - (nearer
                            - 1)]);
                    }
                }
            },
            None => {
                assert forall|i: int| 0 <= i < scope.len() implies (#[trigger] scope[i])@
                    != name by {
                    if i < rest.len() {
                        assert(scope[i] == rest[i]);
                    }
                }
            },
        }
    }
}

/// Looks `name` up in `scope`, innermost binding first.
pub fn resolve(scope: &Vec<Name<'_>>, name: &Name<'_>) -> (found: Option<usize>)
    ensures
        found == spec_resolve(scope@, name@),
        found matches Some(index) ==> index < scope@.len(),
{
    let mut i: usize = scope.len();
    while i > 0
        invariant
            i <= scope.len(),
            forall|j: int| i <= j < scope.len() ==> (#[trigger] scope@[j])@ != name@,
        decreases i,
    {
        i -= 1;
        if scope[i].same(name) {
            proof {
                lemma_resolve_found(scope@, name@, i as int);
            }
            return Some(scope.len() - 1 - i);
        }
    }
    proof {
        lemma_resolve_none(scope@, name@);
    }
    None
}

proof fn lemma_resolve_found(scope: Seq<Name<'_>>, name: Seq<char>, at: int)
    requires
        0 <= at < scope.len() <= usize::MAX,
        scope[at]@ == name,
        forall|j: int| at < j < scope.len() ==> (#[trigger] scope[j])@ != name,
    ensures
        spec_resolve(scope, name) == Some((scope.len() - 1 - at) as usize),
    decreases scope.len(),
{
    if at < scope.len() - 1 {
        assert(scope.last() == scope[scope.len() - 1]);
        let rest = scope.drop_last();
        assert(rest[at] == scope[at]);
        assert forall|j: int| at < j < rest.len() implies (#[trigger] rest[j])@ != name by {
            assert(rest[j] == scope[j]);
        }
        lemma_resolve_found(rest, name, at);
    }
}

proof fn lemma_resolve_none(scope: Seq<Name<'_>>, name: Seq<char>)
    requires
        forall|j: int| 0 <= j < scope.len() ==> (#[trigger] scope[j])@ != name,
    ensures
        spec_resolve(scope, name) is None,
    decreases scope.len(),
{
    if scope.len() > 0 {
        assert(scope.last() == scope[scope.len() - 1]);
        let rest = scope.drop_last();
        assert forall|j: int| 0 <= j < rest.len() implies (#[trigger] rest[j])@ != name by {
            assert(rest[j] == scope[j]);
        }
        lemma_resolve_none(rest, name);
    }
}

/// `scope` with the names of `params[from..]` added, in order.
pub open spec fn scope_with_params<'a>(
    scope: Seq<Name<'a>>,
    params: Seq<Located<Binding<'a>>>,
    from: int,
) -> Seq<Name<'a>>
    decreases params.len() - from,
{
    if 0 <= from < params.len() {
        scope_with_params(scope.push(params[from].content.name), params, from + 1)
    } else {
        scope
    }
}

/// One abstraction for each of `params[from..]`, the first outermost, around `body`.
pub open spec fn spec_abstract<'a>(
    params: Seq<Located<Binding<'a>>>,
    from: int,
    body: Located<Term<'a>>,
    loc: Location,
) -> Located<Term<'a>>
    decreases params.len() - from,
{
    if 0 <= from < params.len() {
        Located {
            content: Term::Abs(
                params[from],
                Box::new(spec_abstract(params, from + 1, body, loc)),
            ),
            loc,
        }
    } else {
        body
    }
}

/// The unit literal, which is the value of a `let`.
pub open spec fn spec_unit<'a>(loc: Location) -> Located<Term<'a>> {
    Located { content: Term::Lit(Literal::Unit), loc }
}

/// The term that `node` lowers to in `scope`, or the error that stops the lowering.
///
/// - A name becomes a reference to the innermost binding of that name; a name
///   that the scope does not hold is `Unbound`.
/// - A call applies the callee to its arguments one by one, from the left.
/// - A `let` that is not a statement of a block binds nothing that anything could see,
///   and is the unit value.
/// - A function definition becomes a `Fn` term: see [`spec_lower_fn`].
pub open spec fn spec_lower_node<'a>(scope: Seq<Name<'a>>, node: Located<Node<'a>>) -> TyResult<
    'a,
    Located<Term<'a>>,
>
    decreases node,
{
    let loc = node.loc;
    match node.content {
        Node::Literal(literal) => Ok(Located { content: Term::Lit(literal), loc }),
        Node::Name(name) => spec_lower_name(scope, Located { content: name, loc }),
        Node::UnaryOp(op, operand) => match spec_lower_node(scope, *operand) {
            Ok(operand) => Ok(Located { content: Term::UnaryOp(op, Box::new(operand)), loc }),
            Err(error) => Err(error),
        },
        Node::BinaryOp(op, left, right) => match spec_lower_node(scope, *left) {
            Ok(left) => match spec_lower_node(scope, *right) {
                Ok(right) => Ok(
                    Located { content: Term::BinaryOp(op, Box::new(left), Box::new(right)), loc },
                ),
                Err(error) => Err(error),
            },
            Err(error) => Err(error),
        },
        Node::LetBind(name, ty, value) => match spec_lower_node(scope, *value) {
            Ok(value) => Ok(
                Located {
                    content: Term::Let(name, ty, Box::new(value), Box::new(spec_unit(loc))),
                    loc,
                },
            ),
            Err(error) => Err(error),
        },
        Node::Cond(condition, then_block, else_block) => match spec_lower_seq(
            scope,
            condition.content@,
            0,
            condition.loc,
        ) {
            Ok(condition) => match spec_lower_seq(scope, then_block.content@, 0, then_block.loc) {
                Ok(then_term) => match spec_lower_seq(
                    scope,
                    else_block.content@,
                    0,
                    else_block.loc,
                ) {
                    Ok(else_term) => Ok(
                        Located {
                            content: Term::Cond(
                                Box::new(condition),
                                Box::new(then_term),
                                Box::new(else_term),
                            ),
                            loc,
                        },
                    ),
                    Err(error) => Err(error),
                },
                Err(error) => Err(error),
            },
            Err(error) => Err(error),
        },
        Node::FnDef(name, params, body, ret) => spec_lower_fn(
            scope,
            name,
            false,
            params@,
            body.content@,
            body.loc,
            ret,
            loc,
        ),
        Node::FnRecDef(name, params, body, ret) => spec_lower_fn(
            scope,
            Some(name),
            occurs_unshadowed(name.content@, body.content),
            params@,
            body.content@,
            body.loc,
            Some(ret),
            loc,
        ),
        Node::Call(callee, args) => match spec_lower_name(scope, callee) {
            Ok(callee) => spec_lower_args(scope, callee, args@, 0),
            Err(error) => Err(error),
        },
    }
}

/// The reference that a name lowers to in `scope`.
pub open spec fn spec_lower_name<'a>(scope: Seq<Name<'a>>, name: Located<Name<'a>>) -> TyResult<
    'a,
    Located<Term<'a>>,
> {
    match spec_resolve(scope, name.content@) {
        Some(index) => Ok(Located { content: Term::Var(name.content, index), loc: name.loc }),
        None => Err(TyError::Unbound(name)),
    }
}

/// `callee` applied to the lowered `args[from..]`, one by one.
pub open spec fn spec_lower_args<'a>(
    scope: Seq<Name<'a>>,
    callee: Located<Term<'a>>,
    args: Seq<Located<Node<'a>>>,
    from: int,
) -> TyResult<'a, Located<Term<'a>>>
    decreases args, args.len() - from,
{
    if 0 <= from < args.len() {
        match spec_lower_node(scope, args[from]) {
            Ok(arg) => {
                let loc = callee.loc.join(arg.loc);
                spec_lower_args(
                    scope,
                    Located { content: Term::App(Box::new(callee), Box::new(arg)), loc },
                    args,
                    from + 1,
                )
            },
            Err(error) => Err(error),
        }
    } else {
        Ok(callee)
    }
}

/// The term that a function definition lowers to.
///
/// The body is lowered in the scope of the definition, extended by the
/// function's own name if `is_rec`, and then by the parameters. A return
/// annotation is kept around the body, and with it the function's declared
/// type is known.
pub open spec fn spec_lower_fn<'a>(
    scope: Seq<Name<'a>>,
    name: Option<Located<Name<'a>>>,
    is_rec: bool,
    params: Seq<Located<Binding<'a>>>,
    body: Seq<Located<Node<'a>>>,
    body_loc: Location,
    ret: Option<Located<Ty>>,
    loc: Location,
) -> TyResult<'a, Located<Term<'a>>>
    decreases body, body.len() + 1,
{
    let is_rec = is_rec && name is Some;
    let own = if is_rec {
        scope.push(name->0.content)
    } else {
        scope
    };
    match spec_lower_seq(scope_with_params(own, params, 0), body, 0, body_loc) {
        Ok(body) => {
            let checked = match ret {
                Some(ret) => Located { content: Term::Ascribe(ret, Box::new(body)), loc: body.loc },
                None => body,
            };
            let ty = match ret {
                Some(ret) => Some(spec_arrows(params, 0, ret.content)),
                None => None,
            };
            Ok(
                Located {
                    content: Term::Fn {
                        name,
                        is_rec,
                        ty,
                        lambda: Box::new(spec_abstract(params, 0, checked, loc)),
                    },
                    loc,
                },
            )
        },
        Err(error) => Err(error),
    }
}

/// The name that a statement of a block binds for the statements after it.
pub open spec fn bound_name<'a>(node: Node<'a>) -> Option<Located<Name<'a>>> {
    match node {
        Node::LetBind(name, _, _) => Some(name),
        Node::FnDef(name, _, _, _) => name,
        Node::FnRecDef(name, _, _, _) => Some(name),
        _ => None,
    }
}

/// The term that the statements `nodes[from..]` of a block at `loc` lower to.
///
/// - A block without statements is the `Empty` term; where the statements
///   have run out after a `let`, the unit value stands.
/// - A `let`: its value is bound in the statements after it.
/// - A named function definition that is followed by more statements: the
///   function is bound in them. As the last statement it is the block's value.
/// - Any other statement is followed in sequence by those after it.
pub open spec fn spec_lower_seq<'a>(
    scope: Seq<Name<'a>>,
    nodes: Seq<Located<Node<'a>>>,
    from: int,
    loc: Location,
) -> TyResult<'a, Located<Term<'a>>>
    decreases nodes, nodes.len() - from,
{
    if 0 <= from < nodes.len() {
        let head = nodes[from];
        match head.content {
            Node::LetBind(name, ty, value) => match spec_lower_node(scope, *value) {
                Ok(value) => match spec_lower_seq(scope.push(name.content), nodes, from + 1, loc) {
                    Ok(rest) => Ok(
                        Located {
                            content: Term::Let(name, ty, Box::new(value), Box::new(rest)),
                            loc: head.loc.join(rest.loc),
                        },
                    ),
                    Err(error) => Err(error),
                },
                Err(error) => Err(error),
            },
            _ => match spec_lower_node(scope, head) {
                Ok(first) => if from + 1 == nodes.len() {
                    Ok(first)
                } else {
                    match bound_name(head.content) {
                        Some(name) => match spec_lower_seq(
                            scope.push(name.content),
                            nodes,
                            from + 1,
                            loc,
                        ) {
                            Ok(rest) => Ok(
                                Located {
                                    content: Term::Let(
                                        name,
                                        None,
                                        Box::new(first),
                                        Box::new(rest),
                                    ),
                                    loc: head.loc.join(rest.loc),
                                },
                            ),
                            Err(error) => Err(error),
                        },
                        None => match spec_lower_seq(scope, nodes, from + 1, loc) {
                            Ok(rest) => Ok(
                                Located {
                                    content: Term::Sequence(Box::new(first), Box::new(rest)),
                                    loc: head.loc.join(rest.loc),
                                },
                            ),
                            Err(error) => Err(error),
                        },
                    }
                },
                Err(error) => Err(error),
            },
        }
    } else if nodes.len() == 0 {
        Ok(Located { content: Term::Empty, loc })
    } else {
        Ok(spec_unit(loc))
    }
}

/// The term that a block lowers to in `scope`.
pub open spec fn spec_lower_block<'a>(scope: Seq<Name<'a>>, block: Located<Block<'a>>) -> TyResult<
    'a,
    Located<Term<'a>>,
> {
    spec_lower_seq(scope, block.content@, 0, block.loc)
}

/// Lowers a reference to a name.
pub fn lower_name<'a>(scope: &Vec<Name<'a>>, name: &Located<Name<'a>>) -> (res: TyResult<
    'a,
    Located<Term<'a>>,
>)
    ensures
        res == spec_lower_name(scope@, *name),
        res matches Ok(term) ==> closed(term, scope@.len()),
{
    match resolve(scope, &name.content) {
        Some(index) => Ok(Located { content: Term::Var(name.content, index), loc: name.loc }),
        None => Err(TyError::Unbound(*name)),
    }
}

/// Puts one abstraction for each parameter around `body`, the first parameter outermost.
pub fn abstract_params<'a>(
    params: &Vec<Located<Binding<'a>>>,
    body: Located<Term<'a>>,
    loc: Location,
) -> (term: Located<Term<'a>>)
    ensures
        term == spec_abstract(params@, 0, body, loc),
        forall|depth: nat| #[trigger]
            closed(body, depth + params@.len()) ==> closed(term, depth),
{
    let ghost inner = body;
    let mut term = body;
    let mut i: usize = params.len();
    while i > 0
        invariant
            i <= params.len(),
            term == spec_abstract(params@, i as int, inner, loc),
            forall|depth: nat| #[trigger]
                closed(inner, depth + params@.len()) ==> closed(term, (depth + i) as nat),
        decreases i,
    {
        i -= 1;
        let param = Located { content: params[i].content.clone(), loc: params[i].loc };
        term = Located { content: Term::Abs(param, Box::new(term)), loc };
    }
    term
}

/// Adds the names of the parameters to the scope, in order.
pub fn push_params<'a>(scope: &mut Vec<Name<'a>>, params: &Vec<Located<Binding<'a>>>)
    ensures
        final(scope)@ == scope_with_params(old(scope)@, params@, 0),
        final(scope)@.len() == old(scope)@.len() + params@.len(),
        final(scope)@.subrange(0, old(scope)@.len() as int) == old(scope)@,
{
    let mut i: usize = 0;
    while i < params.len()
        invariant
            i <= params.len(),
            scope_with_params(scope@, params@, i as int) == scope_with_params(
                old(scope)@,
                params@,
                0,
            ),
            scope@.len() == old(scope)@.len() + i,
            scope@.subrange(0, old(scope)@.len() as int) == old(scope)@,
        decreases params.len() - i,
    {
        scope.push(params[i].content.name);
        i += 1;
        assert(scope@.subrange(0, old(scope)@.len() as int) =~= old(scope)@);
    }
}

/// Lowers `node` in `scope`. The scope is the same after the call as before it.
pub fn lower_node<'a>(scope: &mut Vec<Name<'a>>, node: &Located<Node<'a>>) -> (res: TyResult<
    'a,
    Located<Term<'a>>,
>)
    ensures
        final(scope)@ == old(scope)@,
        res == spec_lower_node(old(scope)@, *node),
        res matches Ok(term) ==> closed(term, old(scope)@.len()),
    decreases *node,
{
    let loc = node.loc;
    match &node.content {
        Node::Literal(literal) => Ok(Located { content: Term::Lit(*literal), loc }),
        Node::Name(name) => lower_name(scope, &Located { content: *name, loc }),
        Node::UnaryOp(op, operand) => {
            let operand = lower_node(scope, &**operand)?;
            Ok(Located { content: Term::UnaryOp(*op, Box::new(operand)), loc })
        },
        Node::BinaryOp(op, left, right) => {
            let left = lower_node(scope, &**left)?;
            let right = lower_node(scope, &**right)?;
            Ok(Located { content: Term::BinaryOp(*op, Box::new(left), Box::new(right)), loc })
        },
        Node::LetBind(name, ty, value) => {
            let value = lower_node(scope, &**value)?;
            let unit = Located { content: Term::Lit(Literal::Unit), loc };
            assert(closed(unit, (scope@.len() + 1) as nat));
            Ok(
                Located {
                    content: Term::Let(*name, copy_annotation(ty), Box::new(value), Box::new(unit)),
                    loc,
                },
            )
        },
        Node::Cond(condition, then_block, else_block) => {
            let condition = lower_seq(scope, &condition.content, 0, condition.loc)?;
            let then_term = lower_seq(scope, &then_block.content, 0, then_block.loc)?;
            let else_term = lower_seq(scope, &else_block.content, 0, else_block.loc)?;
            Ok(
                Located {
                    content: Term::Cond(
                        Box::new(condition),
                        Box::new(then_term),
                        Box::new(else_term),
                    ),
                    loc,
                },
            )
        },
        Node::FnDef(name, params, body, ret) => lower_fn(
            scope,
            *name,
            false,
            params,
            &body.content,
            body.loc,
            copy_annotation(ret),
            loc,
        ),
        Node::FnRecDef(name, params, body, ret) => {
            let is_rec = RecursionChecker::run(name.content, &body.content);
            lower_fn(
                scope,
                Some(*name),
                is_rec,
                params,
                &body.content,
                body.loc,
                Some(copy_located_ty(ret)),
                loc,
            )
        },
        Node::Call(callee, args) => {
            let callee = lower_name(scope, callee)?;
            lower_args(scope, callee, args, 0)
        },
    }
}

/// Applies `callee` to the lowered `args[from..]`, one by one.
pub fn lower_args<'a>(
    scope: &mut Vec<Name<'a>>,
    callee: Located<Term<'a>>,
    args: &Vec<Located<Node<'a>>>,
    from: usize,
) -> (res: TyResult<'a, Located<Term<'a>>>)
    ensures
        final(scope)@ == old(scope)@,
        res == spec_lower_args(old(scope)@, callee, args@, from as int),
        closed(callee, old(scope)@.len()) ==> (res matches Ok(term) ==> closed(
            term,
            old(scope)@.len(),
        )),
    decreases *args, args.len() - from,
{
    if from < args.len() {
        let arg = lower_node(scope, &args[from])?;
        let loc = callee.loc + arg.loc;
        lower_args(
            scope,
            Located { content: Term::App(Box::new(callee), Box::new(arg)), loc },
            args,
            from + 1,
        )
    } else {
        Ok(callee)
    }
}

/// Lowers a function definition. The scope is the same after the call as before it.
pub fn lower_fn<'a>(
    scope: &mut Vec<Name<'a>>,
    name: Option<Located<Name<'a>>>,
    is_rec: bool,
    params: &Vec<Located<Binding<'a>>>,
    body: &Vec<Located<Node<'a>>>,
    body_loc: Location,
    ret: Option<Located<Ty>>,
    loc: Location,
) -> (res: TyResult<'a, Located<Term<'a>>>)
    ensures
        final(scope)@ == old(scope)@,
        res == spec_lower_fn(old(scope)@, name, is_rec, params@, body@, body_loc, ret, loc),
        res matches Ok(term) ==> closed(term, old(scope)@.len()),
    decreases *body, 2 * body.len() + 2,
{
    let outer = scope.len();
    let is_rec = is_rec && name.is_some();
    match name {
        Some(name) => {
            if is_rec {
                scope.push(name.content);
            }
        },
        None => {},
    }
    let ghost own = scope@;
    push_params(scope, params);
    let ghost inner = scope@;
    let lowered = lower_seq(scope, body, 0, body_loc);
    // Leave the scope of the function: what it bound is not visible outside.
    scope.truncate(outer);
    assert(scope@ =~= old(scope)@) by {
        assert(inner.subrange(0, own.len() as int) == own);
        assert(own.subrange(0, outer as int) =~= old(scope)@);
        assert(scope@ =~= inner.subrange(0, outer as int));
    }
    let body_term = lowered?;
    let (checked, ty) = match ret {
        Some(ret) => {
            let ty = arrows(params, &ret.content);
            let body_loc = body_term.loc;
            (
                Located { content: Term::Ascribe(ret, Box::new(body_term)), loc: body_loc },
                Some(ty),
            )
        },
        None => (body_term, None),
    };
    assert(closed(checked, (own.len() + params@.len()) as nat));
    let lambda = abstract_params(params, checked, loc);
    assert(closed(lambda, own.len()));
    Ok(Located { content: Term::Fn { name, is_rec, ty, lambda: Box::new(lambda) }, loc })
}

/// Lowers the statements `nodes[from..]` of a block at `loc`. The scope is
/// the same after the call as before it: what the statements bind is visible
/// to the statements after them, and to nothing outside the block.
pub fn lower_seq<'a>(
    scope: &mut Vec<Name<'a>>,
    nodes: &Vec<Located<Node<'a>>>,
    from: usize,
    loc: Location,
) -> (res: TyResult<'a, Located<Term<'a>>>)
    ensures
        final(scope)@ == old(scope)@,
        res == spec_lower_seq(old(scope)@, nodes@, from as int, loc),
        res matches Ok(term) ==> closed(term, old(scope)@.len()),
    decreases *nodes, 2 * (nodes.len() - from),
{
    if from >= nodes.len() {
        if nodes.len() == 0 {
            return Ok(Located { content: Term::Empty, loc });
        }
        return Ok(Located { content: Term::Lit(Literal::Unit), loc });
    }
    let head = &nodes[from];
    match &head.content {
        Node::LetBind(name, ty, value) => {
            let value = lower_node(scope, &**value)?;
            let rest = lower_rest(scope, name.content, nodes, from + 1, loc)?;
            let whole = head.loc + rest.loc;
            Ok(
                Located {
                    content: Term::Let(*name, copy_annotation(ty), Box::new(value), Box::new(rest)),
                    loc: whole,
                },
            )
        },
        _ => {
            let first = lower_node(scope, head)?;
            if from + 1 == nodes.len() {
                return Ok(first);
            }
            let bound = match &head.content {
                Node::FnDef(name, _, _, _) => *name,
                Node::FnRecDef(name, _, _, _) => Some(*name),
                _ => None,
            };
            match bound {
                Some(name) => {
                    let rest = lower_rest(scope, name.content, nodes, from + 1, loc)?;
                    let whole = head.loc + rest.loc;
                    Ok(
                        Located {
                            content: Term::Let(name, None, Box::new(first), Box::new(rest)),
                            loc: whole,
                        },
                    )
                },
                None => {
                    let rest = lower_seq(scope, nodes, from + 1, loc)?;
                    let whole = head.loc + rest.loc;
                    Ok(
                        Located {
                            content: Term::Sequence(Box::new(first), Box::new(rest)),
                            loc: whole,
                        },
                    )
                },
            }
        },
    }
}

/// Lowers the statements `nodes[from..]` with `name` bound in them, and takes
/// the binding out of the scope again.
fn lower_rest<'a>(
    scope: &mut Vec<Name<'a>>,
    name: Name<'a>,
    nodes: &Vec<Located<Node<'a>>>,
    from: usize,
    loc: Location,
) -> (res: TyResult<'a, Located<Term<'a>>>)
    requires
        0 < from <= nodes.len(),
    ensures
        final(scope)@ == old(scope)@,
        res == spec_lower_seq(old(scope)@.push(name), nodes@, from as int, loc),
        res matches Ok(term) ==> closed(term, old(scope)@.len() + 1),
    decreases *nodes, 2 * (nodes.len() - from) + 1,
{
    scope.push(name);
    let rest = lower_seq(scope, nodes, from, loc);
    scope.pop();
    assert(scope@ =~= old(scope)@);
    rest
}

impl<'a> Term<'a> {
    /// The term that a node lowers to where no name is in scope.
    pub open spec fn spec_from_ast(node: Located<Node<'a>>) -> TyResult<'a, Located<Term<'a>>> {
        spec_lower_node(Seq::empty(), node)
    }

    /// The term that a program, a block of statements, lowers to.
    pub open spec fn spec_from_block(block: Located<Block<'a>>) -> TyResult<
        'a,
        Located<Term<'a>>,
    > {
        spec_lower_block(Seq::empty(), block)
    }

    /// Lowers a node of the syntax tree where no name is in scope. Every
    /// reference in the term that comes out points at a binding in the term.
    pub fn from_ast(node: Located<Node<'a>>) -> (res: TyResult<'a, Located<Term<'a>>>)
        ensures
            res == Self::spec_from_ast(node),
            res matches Ok(term) ==> closed(term, 0),
    {
        let mut scope: Vec<Name<'a>> = Vec::new();
        lower_node(&mut scope, &node)
    }

    /// Lowers a program: a block of statements.
    pub fn from_block(block: Located<Block<'a>>) -> (res: TyResult<'a, Located<Term<'a>>>)
        ensures
            res == Self::spec_from_block(block),
            res matches Ok(term) ==> closed(term, 0),
    {
        let mut scope: Vec<Name<'a>> = Vec::new();
        lower_seq(&mut scope, &block.content, 0, block.loc)
    }
}

/// What a lowering may end in for a tree whose locations lie in a text of
/// `len` positions: a term whose locations lie in the text, or an unbound
/// name at a place in the text. Nothing else makes a lowering fail.
pub open spec fn lowered_within<'a>(res: TyResult<'a, Located<Term<'a>>>, len: nat) -> bool {
    match res {
        Ok(term) => term_within(term, len),
        Err(error) => error is Unbound && error.spec_loc().within(len),
    }
}

/// Abstractions at a place in the text around a body in the text are in the text.
pub proof fn lemma_abstract_within<'a>(
    params: Seq<Located<Binding<'a>>>,
    from: int,
    body: Located<Term<'a>>,
    loc: Location,
    len: nat,
)
    requires
        term_within(body, len),
        loc.within(len),
    ensures
        term_within(spec_abstract(params, from, body, loc), len),
    decreases params.len() - from,
{
    if 0 <= from < params.len() {
        lemma_abstract_within(params, from + 1, body, loc, len);
    }
}

/// The lowering of a node in a text ends in the text, and fails only with an unbound name.
pub proof fn lemma_lower_node_within<'a>(scope: Seq<Name<'a>>, node: Located<Node<'a>>, len: nat)
    requires
        node_within(node, len),
    ensures
        lowered_within(spec_lower_node(scope, node), len),
    decreases node,
{
    match node.content {
        Node::Literal(_) => {},
        Node::Name(_) => {},
        Node::UnaryOp(_, operand) => {
            lemma_lower_node_within(scope, *operand, len);
        },
        Node::BinaryOp(_, left, right) => {
            lemma_lower_node_within(scope, *left, len);
            lemma_lower_node_within(scope, *right, len);
        },
        Node::LetBind(_, _, value) => {
            lemma_lower_node_within(scope, *value, len);
            assert(term_within(spec_unit(node.loc), len));
        },
        Node::Cond(condition, then_block, else_block) => {
            lemma_lower_seq_within(scope, condition.content@, 0, condition.loc, len);
            lemma_lower_seq_within(scope, then_block.content@, 0, then_block.loc, len);
            lemma_lower_seq_within(scope, else_block.content@, 0, else_block.loc, len);
        },
        Node::FnDef(name, params, body, ret) => {
            lemma_lower_fn_within(
                scope,
                name,
                false,
                params@,
                body.content@,
                body.loc,
                ret,
                node.loc,
                len,
            );
        },
        Node::FnRecDef(name, params, body, ret) => {
            lemma_lower_fn_within(
                scope,
                Some(name),
                occurs_unshadowed(name.content@, body.content),
                params@,
                body.content@,
                body.loc,
                Some(ret),
                node.loc,
                len,
            );
        },
        Node::Call(callee, args) => {
            match spec_lower_name(scope, callee) {
                Ok(callee) => {
                    lemma_lower_args_within(scope, callee, args@, 0, len);
                },
                Err(_) => {},
            }
        },
    }
}

/// [`lemma_lower_node_within`] for the arguments of a call.
pub proof fn lemma_lower_args_within<'a>(
    scope: Seq<Name<'a>>,
    callee: Located<Term<'a>>,
    args: Seq<Located<Node<'a>>>,
    from: int,
    len: nat,
)
    requires
        term_within(callee, len),
        nodes_within(args, len),
    ensures
        lowered_within(spec_lower_args(scope, callee, args, from), len),
    decreases args, args.len() - from,
{
    if 0 <= from < args.len() {
        lemma_lower_node_within(scope, args[from], len);
        match spec_lower_node(scope, args[from]) {
            Ok(arg) => {
                let loc = callee.loc.join(arg.loc);
                lemma_lower_args_within(
                    scope,
                    Located { content: Term::App(Box::new(callee), Box::new(arg)), loc },
                    args,
                    from + 1,
                    len,
                );
            },
            Err(_) => {},
        }
    }
}

/// [`lemma_lower_node_within`] for a function definition.
pub proof fn lemma_lower_fn_within<'a>(
    scope: Seq<Name<'a>>,
    name: Option<Located<Name<'a>>>,
    is_rec: bool,
    params: Seq<Located<Binding<'a>>>,
    body: Seq<Located<Node<'a>>>,
    body_loc: Location,
    ret: Option<Located<Ty>>,
    loc: Location,
    len: nat,
)
    requires
        nodes_within(body, len),
        body_loc.within(len),
        loc.within(len),
    ensures
        lowered_within(spec_lower_fn(scope, name, is_rec, params, body, body_loc, ret, loc), len),
    decreases body, 2 * body.len() + 2,
{
    let own = if is_rec && name is Some {
        scope.push(name->0.content)
    } else {
        scope
    };
    let inner = scope_with_params(own, params, 0);
    lemma_lower_seq_within(inner, body, 0, body_loc, len);
    match spec_lower_seq(inner, body, 0, body_loc) {
        Ok(body) => {
            let checked = match ret {
                Some(ret) => Located { content: Term::Ascribe(ret, Box::new(body)), loc: body.loc },
                None => body,
            };
            lemma_abstract_within(params, 0, checked, loc, len);
        },
        Err(_) => {},
    }
}

/// [`lemma_lower_node_within`] for the statements of a block.
pub proof fn lemma_lower_seq_within<'a>(
    scope: Seq<Name<'a>>,
    nodes: Seq<Located<Node<'a>>>,
    from: int,
    loc: Location,
    len: nat,
)
    requires
        nodes_within(nodes, len),
        loc.within(len),
    ensures
        lowered_within(spec_lower_seq(scope, nodes, from, loc), len),
    decreases nodes, 2 * (nodes.len() - from),
{
    if 0 <= from < nodes.len() {
        let head = nodes[from];
        match head.content {
            Node::LetBind(name, _, value) => {
                lemma_lower_node_within(scope, *value, len);
                lemma_lower_seq_within(scope.push(name.content), nodes, from + 1, loc, len);
            },
            _ => {
                lemma_lower_node_within(scope, head, len);
                match bound_name(head.content) {
                    Some(name) => {
                        lemma_lower_seq_within(scope.push(name.content), nodes, from + 1, loc, len);
                    },
                    None => {
                        lemma_lower_seq_within(scope, nodes, from + 1, loc, len);
                    },
                }
            },
        }
    }
}

} // verus!
