//! Checks that are made on the syntax tree before it is lowered.
use vstd::prelude::*;

use crate::ast::{BinOp, Block, Literal, Name, Node, UnOp};
use crate::location::Located;
use crate::ty::{Binding, Ty};
use crate::visitor::{
    after_node, after_nodes, after_nodes_in_block, after_params, walk_block, NodeVisitor, Visited,
};

verus! {

/// Whether `node` holds a reference to `target` that no binding of the same
/// name shadows, where `shadowed` says whether the scope that `node` stands in
/// has shadowed `target` already.
pub open spec fn node_uses(target: Seq<char>, node: Located<Node<'_>>, shadowed: bool) -> bool
    decreases node,
{
    match node.content {
        Node::Literal(_) => false,
        Node::Name(name) => !shadowed && name@ == target,
        Node::BinaryOp(_, left, right) => node_uses(target, *left, shadowed) || node_uses(
            target,
            *right,
            node_shadows(target, *left, shadowed),
        ),
        Node::UnaryOp(_, operand) => node_uses(target, *operand, shadowed),
        Node::LetBind(name, _, value) => node_uses(
            target,
            *value,
            shadowed || name.content@ == target,
        ),
        Node::Cond(condition, then_block, else_block) => nodes_use(
            target,
            condition.content@,
            0,
            shadowed,
        ) || nodes_use(target, then_block.content@, 0, shadowed) || nodes_use(
            target,
            else_block.content@,
            0,
            shadowed,
        ),
        Node::FnDef(name, _, body, _) => nodes_use(
            target,
            body.content@,
            0,
            shadowed || (name is Some && name->0.content@ == target),
        ),
        Node::FnRecDef(name, _, body, _) => nodes_use(
            target,
            body.content@,
            0,
            shadowed || name.content@ == target,
        ),
        Node::Call(callee, args) => (!shadowed && callee.content@ == target) || nodes_use(
            target,
            args@,
            0,
            shadowed,
        ),
    }
}

/// Whether `target` is shadowed in the scope that `node` stands in once `node`
/// has been passed. A `let` or a function definition that binds `target`
/// shadows it from there on; what a block binds ends with the block.
pub open spec fn node_shadows(target: Seq<char>, node: Located<Node<'_>>, shadowed: bool) -> bool
    decreases node,
{
    match node.content {
        Node::Literal(_) => shadowed,
        Node::Name(_) => shadowed,
        Node::BinaryOp(_, left, right) => node_shadows(
            target,
            *right,
            node_shadows(target, *left, shadowed),
        ),
        Node::UnaryOp(_, operand) => node_shadows(target, *operand, shadowed),
        Node::LetBind(name, _, value) => node_shadows(
            target,
            *value,
            shadowed || name.content@ == target,
        ),
        Node::Cond(_, _, _) => shadowed,
        Node::FnDef(name, _, _, _) => shadowed || (name is Some && name->0.content@ == target),
        Node::FnRecDef(name, _, _, _) => shadowed || name.content@ == target,
        Node::Call(_, args) => nodes_shadow(target, args@, 0, shadowed),
    }
}

/// [`node_uses`] for the nodes `nodes[from..]` of one scope, in order.
pub open spec fn nodes_use(
    target: Seq<char>,
    nodes: Seq<Located<Node<'_>>>,
    from: int,
    shadowed: bool,
) -> bool
    decreases nodes, nodes.len() - from,
{
    if 0 <= from < nodes.len() {
        node_uses(target, nodes[from], shadowed) || nodes_use(
            target,
            nodes,
            from + 1,
            node_shadows(target, nodes[from], shadowed),
        )
    } else {
        false
    }
}

/// [`node_shadows`] for the nodes `nodes[from..]` of one scope, in order.
pub open spec fn nodes_shadow(
    target: Seq<char>,
    nodes: Seq<Located<Node<'_>>>,
    from: int,
    shadowed: bool,
) -> bool
    decreases nodes, nodes.len() - from,
{
    if 0 <= from < nodes.len() {
        nodes_shadow(target, nodes, from + 1, node_shadows(target, nodes[from], shadowed))
    } else {
        shadowed
    }
}

/// Whether `body` holds a reference to `target` that nothing shadows.
pub open spec fn occurs_unshadowed(target: Seq<char>, body: Block<'_>) -> bool {
    nodes_use(target, body@, 0, false)
}

/// What the recursion checker knows at a point of its walk.
pub struct CheckerState {
    /// The name that is looked for.
    pub target: Seq<char>,
    /// Whether an unshadowed reference has been found.
    pub is_rec: bool,
    /// Whether the target is shadowed in the current scope.
    pub is_shadowed: bool,
    /// The shadowing status of the enclosing scopes, innermost last.
    pub stack: Seq<bool>,
}

/// Checks if a function is recursive or not.
pub struct RecursionChecker<'a> {
    /// Name of the target function.
    name: Name<'a>,
    /// Whether the function has been found to be recursive so far.
    is_rec: bool,
    /// Whether the target name is shadowed in the current scope: the top of the stack.
    is_shadowed: bool,
    /// The shadowing status in the enclosing scopes.
    stack: Vec<bool>,
}

impl<'a> View for RecursionChecker<'a> {
    type V = CheckerState;

    closed spec fn view(&self) -> CheckerState {
        CheckerState {
            target: self.name@,
            is_rec: self.is_rec,
            is_shadowed: self.is_shadowed,
            stack: self.stack@,
        }
    }
}

/// The state after a binding of `name` has been passed.
pub open spec fn bind(state: CheckerState, name: Seq<char>) -> CheckerState {
    if name == state.target {
        CheckerState { is_shadowed: true, ..state }
    } else {
        state
    }
}

impl<'a> RecursionChecker<'a> {
    /// Runs the recursion check with the target function's name and body.
    pub fn run(name: Name<'a>, body: &Block<'a>) -> (is_rec: bool)
        ensures
            is_rec == occurs_unshadowed(name@, *body),
    {
        let mut this = RecursionChecker {
            name,
            is_rec: false,
            is_shadowed: false,
            stack: Vec::new(),
        };
        proof {
            lemma_checker_block(this@, body@);
        }
        walk_block(&mut this, body);
        // Every scope that was pushed has been popped.
        assert(this.stack@ =~= Seq::<bool>::empty());
        this.is_rec
    }

    /// Pushes a new scope onto the stack. The new scope has the shadowed
    /// status of the old one, because a scope sees the names of its parent.
    pub fn push_scope(&mut self)
        ensures
            final(self)@ == (CheckerState {
                stack: old(self)@.stack.push(old(self)@.is_shadowed),
                ..old(self)@
            }),
    {
        self.stack.push(self.is_shadowed)
    }

    /// Pops a scope from the stack and makes it the current one again.
    pub fn pop_scope(&mut self)
        requires
            old(self)@.stack.len() > 0,
        ensures
            final(self)@ == (CheckerState {
                is_shadowed: old(self)@.stack.last(),
                stack: old(self)@.stack.drop_last(),
                ..old(self)@
            }),
    {
        match self.stack.pop() {
            Some(shadowed) => {
                self.is_shadowed = shadowed;
            },
            None => {},
        }
    }
}

impl<'a> NodeVisitor<'a> for RecursionChecker<'a> {
    type State = CheckerState;

    open spec fn state(&self) -> CheckerState {
        self@
    }

    open spec fn step(state: CheckerState, unit: Visited<'a>) -> (CheckerState, bool) {
        match unit {
            Visited::Name(name) => (
                if !state.is_shadowed && name@ == state.target {
                    CheckerState { is_rec: true, ..state }
                } else {
                    state
                },
                true,
            ),
            Visited::LetBind(name, _) => (bind(state, name.content@), true),
            Visited::FnDef(name, _, _) => (
                if name is Some {
                    bind(state, name->0.content@)
                } else {
                    state
                },
                true,
            ),
            Visited::FnRecDef(name, _, _) => (bind(state, name.content@), true),
            Visited::EnterBlock => (
                CheckerState { stack: state.stack.push(state.is_shadowed), ..state },
                true,
            ),
            Visited::LeaveBlock => (
                if state.stack.len() > 0 {
                    CheckerState {
                        is_shadowed: state.stack.last(),
                        stack: state.stack.drop_last(),
                        ..state
                    }
                } else {
                    state
                },
                true,
            ),
            _ => (state, true),
        }
    }

    open spec fn depth(state: CheckerState) -> nat {
        state.stack.len()
    }

    proof fn lemma_step_depth(state: CheckerState, unit: Visited<'a>) {
    }

    fn visit_literal(&mut self, literal: &Literal) {
    }

    fn visit_name(&mut self, name: &Name<'a>) {
        // The function is recursive if its name is found in its body where
        // nothing shadows it.
        if !self.is_shadowed && name.same(&self.name) {
            self.is_rec = true;
        }
    }

    fn visit_binary_op(&mut self, op: &BinOp) -> (descend: bool) {
        true
    }

    fn visit_unary_op(&mut self, op: &UnOp) -> (descend: bool) {
        true
    }

    fn visit_let_bind(&mut self, name: &Located<Name<'a>>, ty: &Option<Located<Ty>>) -> (descend:
        bool) {
        // A binding of the target name shadows it in the current scope.
        if name.content.same(&self.name) {
            self.is_shadowed = true;
        }
        true
    }

    fn visit_cond(&mut self) -> (descend: bool) {
        true
    }

    fn visit_fn_def(
        &mut self,
        name: &Option<Located<Name<'a>>>,
        params: &Vec<Located<Binding<'a>>>,
        ret: &Option<Located<Ty>>,
    ) -> (descend: bool) {
        // A function definition that binds the target name shadows it in the
        // current scope.
        match name {
            Some(name) => {
                if name.content.same(&self.name) {
                    self.is_shadowed = true;
                }
            },
            None => {},
        }
        true
    }

    fn visit_fn_rec_def(
        &mut self,
        name: &Located<Name<'a>>,
        params: &Vec<Located<Binding<'a>>>,
        ret: &Located<Ty>,
    ) -> (descend: bool) {
        if name.content.same(&self.name) {
            self.is_shadowed = true;
        }
        true
    }

    fn visit_call(&mut self, callee: &Located<Name<'a>>) -> (descend: bool) {
        true
    }

    fn visit_binding(&mut self, binding: &Located<Binding<'a>>) {
    }

    fn enter_block(&mut self) {
        // What is bound inside a block exists only in that block.
        self.push_scope();
    }

    fn leave_block(&mut self) {
        self.pop_scope();
    }
}

/// What the checker's walk over a node does to its state: it finds what
/// [`node_uses`] says, leaves the scope shadowed as [`node_shadows`] says, and
/// leaves the stack of enclosing scopes as it was.
pub proof fn lemma_checker_node<'a>(state: CheckerState, node: Located<Node<'a>>)
    ensures
        after_node::<RecursionChecker<'a>>(state, node) == (CheckerState {
            target: state.target,
            is_rec: state.is_rec || node_uses(state.target, node, state.is_shadowed),
            is_shadowed: node_shadows(state.target, node, state.is_shadowed),
            stack: state.stack,
        }),
    decreases node,
{
    match node.content {
        Node::Literal(_) => {},
        Node::Name(_) => {},
        Node::BinaryOp(op, left, right) => {
            lemma_checker_node(state, *left);
            lemma_checker_node(after_node::<RecursionChecker<'a>>(state, *left), *right);
        },
        Node::UnaryOp(_, operand) => {
            lemma_checker_node(state, *operand);
        },
        Node::LetBind(name, _, value) => {
            lemma_checker_node(bind(state, name.content@), *value);
        },
        Node::Cond(condition, then_block, else_block) => {
            lemma_checker_block(state, condition.content@);
            let tested = after_nodes_in_block::<RecursionChecker<'a>>(state, condition.content@);
            lemma_checker_block(tested, then_block.content@);
            let taken = after_nodes_in_block::<RecursionChecker<'a>>(tested, then_block.content@);
            lemma_checker_block(taken, else_block.content@);
        },
        Node::FnDef(name, params, body, _) => {
            let entered = if name is Some {
                bind(state, name->0.content@)
            } else {
                state
            };
            lemma_checker_params(entered, params@, 0);
            lemma_checker_block(entered, body.content@);
        },
        Node::FnRecDef(name, params, body, _) => {
            lemma_checker_params(bind(state, name.content@), params@, 0);
            lemma_checker_block(bind(state, name.content@), body.content@);
        },
        Node::Call(callee, args) => {
            let called = RecursionChecker::<'a>::step(state, Visited::Name(callee.content)).0;
            lemma_checker_nodes(called, args@, 0);
        },
    }
}

/// The checker passes over the parameters of a function: they bind nothing
/// that it looks for.
pub proof fn lemma_checker_params<'a>(
    state: CheckerState,
    params: Seq<Located<Binding<'a>>>,
    from: int,
)
    ensures
        after_params::<RecursionChecker<'a>>(state, params, from) == state,
    decreases params.len() - from,
{
    if 0 <= from < params.len() {
        lemma_checker_params(state, params, from + 1);
    }
}

/// [`lemma_checker_node`] for the nodes `nodes[from..]` of one scope.
pub proof fn lemma_checker_nodes<'a>(
    state: CheckerState,
    nodes: Seq<Located<Node<'a>>>,
    from: int,
)
    ensures
        after_nodes::<RecursionChecker<'a>>(state, nodes, from) == (CheckerState {
            target: state.target,
            is_rec: state.is_rec || nodes_use(state.target, nodes, from, state.is_shadowed),
            is_shadowed: nodes_shadow(state.target, nodes, from, state.is_shadowed),
            stack: state.stack,
        }),
    decreases nodes, nodes.len() - from,
{
    if 0 <= from < nodes.len() {
        lemma_checker_node(state, nodes[from]);
        lemma_checker_nodes(
            after_node::<RecursionChecker<'a>>(state, nodes[from]),
            nodes,
            from + 1,
        );
    }
}

/// A block is a scope of its own: the checker's walk over it finds the
/// references that the block holds, and leaves the shadowing status and the
/// stack of scopes exactly as they were before the block, whatever the block
/// binds.
pub proof fn lemma_checker_block<'a>(state: CheckerState, nodes: Seq<Located<Node<'a>>>)
    ensures
        after_nodes_in_block::<RecursionChecker<'a>>(state, nodes) == (CheckerState {
            target: state.target,
            is_rec: state.is_rec || nodes_use(state.target, nodes, 0, state.is_shadowed),
            is_shadowed: state.is_shadowed,
            stack: state.stack,
        }),
    decreases nodes, nodes.len() + 1,
{
    let entered = CheckerState { stack: state.stack.push(state.is_shadowed), ..state };
    lemma_checker_nodes(entered, nodes, 0);
    assert(entered.stack.drop_last() =~= state.stack);
}

/// Once the target is shadowed in a scope it stays shadowed there, and no
/// reference in that scope counts as a use.
pub proof fn lemma_shadowed_stays<'a>(target: Seq<char>, node: Located<Node<'a>>, shadowed: bool)
    ensures
        shadowed ==> node_shadows(target, node, shadowed),
        shadowed ==> !node_uses(target, node, shadowed),
    decreases node,
{
    if shadowed {
        match node.content {
            Node::Literal(_) => {},
            Node::Name(_) => {},
            Node::BinaryOp(_, left, right) => {
                lemma_shadowed_stays(target, *left, true);
                lemma_shadowed_stays(target, *right, true);
            },
            Node::UnaryOp(_, operand) => {
                lemma_shadowed_stays(target, *operand, true);
            },
            Node::LetBind(_, _, value) => {
                lemma_shadowed_stays(target, *value, true);
            },
            Node::Cond(condition, then_block, else_block) => {
                lemma_shadowed_nodes_stay(target, condition.content@, 0, true);
                lemma_shadowed_nodes_stay(target, then_block.content@, 0, true);
                lemma_shadowed_nodes_stay(target, else_block.content@, 0, true);
            },
            Node::FnDef(_, _, body, _) => {
                lemma_shadowed_nodes_stay(target, body.content@, 0, true);
            },
            Node::FnRecDef(_, _, body, _) => {
                lemma_shadowed_nodes_stay(target, body.content@, 0, true);
            },
            Node::Call(_, args) => {
                lemma_shadowed_nodes_stay(target, args@, 0, true);
            },
        }
    }
}

/// [`lemma_shadowed_stays`] for the nodes `nodes[from..]` of one scope.
pub proof fn lemma_shadowed_nodes_stay<'a>(
    target: Seq<char>,
    nodes: Seq<Located<Node<'a>>>,
    from: int,
    shadowed: bool,
)
    ensures
        shadowed ==> nodes_shadow(target, nodes, from, shadowed),
        shadowed ==> !nodes_use(target, nodes, from, shadowed),
    decreases nodes, nodes.len() - from,
{
    if shadowed && 0 <= from < nodes.len() {
        lemma_shadowed_stays(target, nodes[from], true);
        lemma_shadowed_nodes_stay(target, nodes, from + 1, true);
    }
}

} // verus!
