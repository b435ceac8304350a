//! A traversal of the syntax tree that passes can hook into.
//!
//! [`walk_node`], [`walk_nodes`], [`walk_params`] and [`walk_block`] walk the
//! tree in source order. At each syntactic unit they call the method of [`NodeVisitor`] that
//! belongs to it, before the unit's children are visited. A pass keeps its
//! state in the visitor value and changes it in those methods. A method for a
//! compound unit answers whether the walk descends into the unit's children:
//! answering `false` prunes the subtree.
use vstd::prelude::*;

use crate::ast::{BinOp, Block, Literal, Name, Node, UnOp};
use crate::location::Located;
use crate::ty::{Binding, Ty};

verus! {

/// A syntactic unit that a walk has arrived at.
pub enum Visited<'a> {
    Literal(Literal),
    /// A reference to a name: a bare name, or the callee of a call.
    Name(Name<'a>),
    BinaryOp(BinOp),
    UnaryOp(UnOp),
    LetBind(Located<Name<'a>>, Option<Located<Ty>>),
    Cond,
    FnDef(Option<Located<Name<'a>>>, Vec<Located<Binding<'a>>>, Option<Located<Ty>>),
    FnRecDef(Located<Name<'a>>, Vec<Located<Binding<'a>>>, Located<Ty>),
    Call(Located<Name<'a>>),
    /// A parameter of a function definition.
    Binding(Located<Binding<'a>>),
    /// The start of a block, before its first node.
    EnterBlock,
    /// The end of a block, after its last node.
    LeaveBlock,
}

/// A pass over the syntax tree.
///
/// `step` is the pass as a function: the state after a unit has been visited,
/// and whether the walk descends into the unit. Each method does to the visitor
/// what `step` says for its unit.
pub trait NodeVisitor<'a>: Sized {
    type State;

    spec fn state(&self) -> Self::State;

    spec fn step(state: Self::State, unit: Visited<'a>) -> (Self::State, bool);

    /// The number of blocks that the walk has entered and not yet left.
    spec fn depth(state: Self::State) -> nat;

    /// Entering a block adds one to the depth, leaving one takes it away, and
    /// no other unit changes it.
    proof fn lemma_step_depth(state: Self::State, unit: Visited<'a>)
        ensures
            unit is EnterBlock ==> Self::depth(Self::step(state, unit).0) == Self::depth(state)
                + 1,
            unit is LeaveBlock && Self::depth(state) > 0 ==> Self::depth(
                Self::step(state, unit).0,
            ) == Self::depth(state) - 1,
            !(unit is EnterBlock) && !(unit is LeaveBlock) ==> Self::depth(
                Self::step(state, unit).0,
            ) == Self::depth(state),
    ;

    fn visit_literal(&mut self, literal: &Literal)
        ensures
            final(self).state() == Self::step(old(self).state(), Visited::Literal(*literal)).0,
    ;

    fn visit_name(&mut self, name: &Name<'a>)
        ensures
            final(self).state() == Self::step(old(self).state(), Visited::Name(*name)).0,
    ;

    fn visit_binary_op(&mut self, op: &BinOp) -> (descend: bool)
        ensures
            (final(self).state(), descend) == Self::step(
                old(self).state(),
                Visited::BinaryOp(*op),
            ),
    ;

    fn visit_unary_op(&mut self, op: &UnOp) -> (descend: bool)
        ensures
            (final(self).state(), descend) == Self::step(old(self).state(), Visited::UnaryOp(*op)),
    ;

    fn visit_let_bind(&mut self, name: &Located<Name<'a>>, ty: &Option<Located<Ty>>) -> (descend:
        bool)
        ensures
            (final(self).state(), descend) == Self::step(
                old(self).state(),
                Visited::LetBind(*name, *ty),
            ),
    ;

    fn visit_cond(&mut self) -> (descend: bool)
        ensures
            (final(self).state(), descend) == Self::step(old(self).state(), Visited::Cond),
    ;

    fn visit_fn_def(
        &mut self,
        name: &Option<Located<Name<'a>>>,
        params: &Vec<Located<Binding<'a>>>,
        ret: &Option<Located<Ty>>,
    ) -> (descend: bool)
        ensures
            (final(self).state(), descend) == Self::step(
                old(self).state(),
                Visited::FnDef(*name, *params, *ret),
            ),
    ;

    fn visit_fn_rec_def(
        &mut self,
        name: &Located<Name<'a>>,
        params: &Vec<Located<Binding<'a>>>,
        ret: &Located<Ty>,
    ) -> (descend: bool)
        ensures
            (final(self).state(), descend) == Self::step(
                old(self).state(),
                Visited::FnRecDef(*name, *params, *ret),
            ),
    ;

    fn visit_call(&mut self, callee: &Located<Name<'a>>) -> (descend: bool)
        ensures
            (final(self).state(), descend) == Self::step(
                old(self).state(),
                Visited::Call(*callee),
            ),
    ;

    fn visit_binding(&mut self, binding: &Located<Binding<'a>>)
        ensures
            final(self).state() == Self::step(old(self).state(), Visited::Binding(*binding)).0,
    ;

    fn enter_block(&mut self)
        ensures
            final(self).state() == Self::step(old(self).state(), Visited::EnterBlock).0,
    ;

    fn leave_block(&mut self)
        requires
            Self::depth(old(self).state()) > 0,
        ensures
            final(self).state() == Self::step(old(self).state(), Visited::LeaveBlock).0,
    ;
}

/// The state of pass `V` after a walk over `node` that started in `state`.
pub open spec fn after_node<'a, V: NodeVisitor<'a>>(
    state: V::State,
    node: Located<Node<'a>>,
) -> V::State
    decreases node,
{
    match node.content {
        Node::Literal(literal) => V::step(state, Visited::Literal(literal)).0,
        Node::Name(name) => V::step(state, Visited::Name(name)).0,
        Node::BinaryOp(op, left, right) => {
            let (entered, descend) = V::step(state, Visited::BinaryOp(op));
            if descend {
                after_node::<V>(after_node::<V>(entered, *left), *right)
            } else {
                entered
            }
        },
        Node::UnaryOp(op, operand) => {
            let (entered, descend) = V::step(state, Visited::UnaryOp(op));
            if descend {
                after_node::<V>(entered, *operand)
            } else {
                entered
            }
        },
        Node::LetBind(name, ty, value) => {
            let (entered, descend) = V::step(state, Visited::LetBind(name, ty));
            if descend {
                after_node::<V>(entered, *value)
            } else {
                entered
            }
        },
        Node::Cond(condition, then_block, else_block) => {
            let (entered, descend) = V::step(state, Visited::Cond);
            if descend {
                let tested = after_nodes_in_block::<V>(entered, condition.content@);
                let taken = after_nodes_in_block::<V>(tested, then_block.content@);
                after_nodes_in_block::<V>(taken, else_block.content@)
            } else {
                entered
            }
        },
        Node::FnDef(name, params, body, ret) => {
            let (entered, descend) = V::step(state, Visited::FnDef(name, params, ret));
            if descend {
                after_nodes_in_block::<V>(after_params::<V>(entered, params@, 0), body.content@)
            } else {
                entered
            }
        },
        Node::FnRecDef(name, params, body, ret) => {
            let (entered, descend) = V::step(state, Visited::FnRecDef(name, params, ret));
            if descend {
                after_nodes_in_block::<V>(after_params::<V>(entered, params@, 0), body.content@)
            } else {
                entered
            }
        },
        Node::Call(callee, args) => {
            let (entered, descend) = V::step(state, Visited::Call(callee));
            if descend {
                let called = V::step(entered, Visited::Name(callee.content)).0;
                after_nodes::<V>(called, args@, 0)
            } else {
                entered
            }
        },
    }
}

/// The state of pass `V` after a walk over the parameters `params[from..]`, in order.
pub open spec fn after_params<'a, V: NodeVisitor<'a>>(
    state: V::State,
    params: Seq<Located<Binding<'a>>>,
    from: int,
) -> V::State
    decreases params.len() - from,
{
    if 0 <= from < params.len() {
        after_params::<V>(V::step(state, Visited::Binding(params[from])).0, params, from + 1)
    } else {
        state
    }
}

/// The state of pass `V` after a walk over `nodes[from..]`, in order.
pub open spec fn after_nodes<'a, V: NodeVisitor<'a>>(
    state: V::State,
    nodes: Seq<Located<Node<'a>>>,
    from: int,
) -> V::State
    decreases nodes, nodes.len() - from,
{
    if 0 <= from < nodes.len() {
        after_nodes::<V>(after_node::<V>(state, nodes[from]), nodes, from + 1)
    } else {
        state
    }
}

/// The state of pass `V` after a walk over a block that holds `nodes`: the
/// block is entered, its nodes are visited in order, and the block is left.
pub open spec fn after_nodes_in_block<'a, V: NodeVisitor<'a>>(
    state: V::State,
    nodes: Seq<Located<Node<'a>>>,
) -> V::State
    decreases nodes, nodes.len() + 1,
{
    let entered = V::step(state, Visited::EnterBlock).0;
    V::step(after_nodes::<V>(entered, nodes, 0), Visited::LeaveBlock).0
}

/// The state of pass `V` after a walk over `block`.
pub open spec fn after_block<'a, V: NodeVisitor<'a>>(state: V::State, block: Block<'a>) -> V::State {
    after_nodes_in_block::<V>(state, block@)
}

/// A walk over a node leaves the depth as it found it.
pub proof fn lemma_node_keeps_depth<'a, V: NodeVisitor<'a>>(
    state: V::State,
    node: Located<Node<'a>>,
)
    ensures
        V::depth(after_node::<V>(state, node)) == V::depth(state),
    decreases node,
{
    match node.content {
        Node::Literal(literal) => {
            V::lemma_step_depth(state, Visited::Literal(literal));
        },
        Node::Name(name) => {
            V::lemma_step_depth(state, Visited::Name(name));
        },
        Node::BinaryOp(op, left, right) => {
            V::lemma_step_depth(state, Visited::BinaryOp(op));
            let entered = V::step(state, Visited::BinaryOp(op)).0;
            lemma_node_keeps_depth::<V>(entered, *left);
            lemma_node_keeps_depth::<V>(after_node::<V>(entered, *left), *right);
        },
        Node::UnaryOp(op, operand) => {
            V::lemma_step_depth(state, Visited::UnaryOp(op));
            lemma_node_keeps_depth::<V>(V::step(state, Visited::UnaryOp(op)).0, *operand);
        },
        Node::LetBind(name, ty, value) => {
            V::lemma_step_depth(state, Visited::LetBind(name, ty));
            lemma_node_keeps_depth::<V>(V::step(state, Visited::LetBind(name, ty)).0, *value);
        },
        Node::Cond(condition, then_block, else_block) => {
            V::lemma_step_depth(state, Visited::Cond);
            let entered = V::step(state, Visited::Cond).0;
            lemma_block_keeps_depth::<V>(entered, condition.content@);
            let tested = after_nodes_in_block::<V>(entered, condition.content@);
            lemma_block_keeps_depth::<V>(tested, then_block.content@);
            let taken = after_nodes_in_block::<V>(tested, then_block.content@);
            lemma_block_keeps_depth::<V>(taken, else_block.content@);
        },
        Node::FnDef(name, params, body, ret) => {
            V::lemma_step_depth(state, Visited::FnDef(name, params, ret));
            let entered = V::step(state, Visited::FnDef(name, params, ret)).0;
            lemma_params_keep_depth::<V>(entered, params@, 0);
            lemma_block_keeps_depth::<V>(after_params::<V>(entered, params@, 0), body.content@);
        },
        Node::FnRecDef(name, params, body, ret) => {
            V::lemma_step_depth(state, Visited::FnRecDef(name, params, ret));
            let entered = V::step(state, Visited::FnRecDef(name, params, ret)).0;
            lemma_params_keep_depth::<V>(entered, params@, 0);
            lemma_block_keeps_depth::<V>(after_params::<V>(entered, params@, 0), body.content@);
        },
        Node::Call(callee, args) => {
            V::lemma_step_depth(state, Visited::Call(callee));
            let entered = V::step(state, Visited::Call(callee)).0;
            V::lemma_step_depth(entered, Visited::Name(callee.content));
            lemma_nodes_keep_depth::<V>(
                V::step(entered, Visited::Name(callee.content)).0,
                args@,
                0,
            );
        },
    }
}

/// A walk over parameters leaves the depth as it found it.
pub proof fn lemma_params_keep_depth<'a, V: NodeVisitor<'a>>(
    state: V::State,
    params: Seq<Located<Binding<'a>>>,
    from: int,
)
    ensures
        V::depth(after_params::<V>(state, params, from)) == V::depth(state),
    decreases params.len() - from,
{
    if 0 <= from < params.len() {
        V::lemma_step_depth(state, Visited::Binding(params[from]));
        lemma_params_keep_depth::<V>(
            V::step(state, Visited::Binding(params[from])).0,
            params,
            from + 1,
        );
    }
}

/// A walk over a sequence of nodes leaves the depth as it found it.
pub proof fn lemma_nodes_keep_depth<'a, V: NodeVisitor<'a>>(
    state: V::State,
    nodes: Seq<Located<Node<'a>>>,
    from: int,
)
    ensures
        V::depth(after_nodes::<V>(state, nodes, from)) == V::depth(state),
    decreases nodes, nodes.len() - from,
{
    if 0 <= from < nodes.len() {
        lemma_node_keeps_depth::<V>(state, nodes[from]);
        lemma_nodes_keep_depth::<V>(after_node::<V>(state, nodes[from]), nodes, from + 1);
    }
}

/// A walk over a block leaves the depth as it found it: every block that is
/// entered is left again.
pub proof fn lemma_block_keeps_depth<'a, V: NodeVisitor<'a>>(
    state: V::State,
    nodes: Seq<Located<Node<'a>>>,
)
    ensures
        V::depth(after_nodes_in_block::<V>(state, nodes)) == V::depth(state),
        V::depth(after_nodes::<V>(V::step(state, Visited::EnterBlock).0, nodes, 0)) > 0,
    decreases nodes, nodes.len() + 1,
{
    V::lemma_step_depth(state, Visited::EnterBlock);
    let entered = V::step(state, Visited::EnterBlock).0;
    lemma_nodes_keep_depth::<V>(entered, nodes, 0);
    V::lemma_step_depth(after_nodes::<V>(entered, nodes, 0), Visited::LeaveBlock);
}

/// Walks over `node` and its children.
pub fn walk_node<'a, V: NodeVisitor<'a>>(visitor: &mut V, node: &Located<Node<'a>>)
    ensures
        final(visitor).state() == after_node::<V>(old(visitor).state(), *node),
    decreases *node,
{
    match &node.content {
        Node::Literal(literal) => {
            visitor.visit_literal(literal);
        },
        Node::Name(name) => {
            visitor.visit_name(name);
        },
        Node::BinaryOp(op, left, right) => {
            if visitor.visit_binary_op(op) {
                walk_node(visitor, &**left);
                walk_node(visitor, &**right);
            }
        },
        Node::UnaryOp(op, operand) => {
            if visitor.visit_unary_op(op) {
                walk_node(visitor, &**operand);
            }
        },
        Node::LetBind(name, ty, value) => {
            if visitor.visit_let_bind(name, ty) {
                walk_node(visitor, &**value);
            }
        },
        Node::Cond(condition, then_block, else_block) => {
            if visitor.visit_cond() {
                walk_block(visitor, &condition.content);
                walk_block(visitor, &then_block.content);
                walk_block(visitor, &else_block.content);
            }
        },
        Node::FnDef(name, params, body, ret) => {
            if visitor.visit_fn_def(name, params, ret) {
                walk_params(visitor, params);
                walk_block(visitor, &body.content);
            }
        },
        Node::FnRecDef(name, params, body, ret) => {
            if visitor.visit_fn_rec_def(name, params, ret) {
                walk_params(visitor, params);
                walk_block(visitor, &body.content);
            }
        },
        Node::Call(callee, args) => {
            if visitor.visit_call(callee) {
                visitor.visit_name(&callee.content);
                walk_nodes(visitor, args, 0);
            }
        },
    }
}

/// Walks over the parameters of a function definition, in order.
pub fn walk_params<'a, V: NodeVisitor<'a>>(visitor: &mut V, params: &Vec<Located<Binding<'a>>>)
    ensures
        final(visitor).state() == after_params::<V>(old(visitor).state(), params@, 0),
{
    let mut i: usize = 0;
    while i < params.len()
        invariant
            i <= params.len(),
            after_params::<V>(visitor.state(), params@, i as int) == after_params::<V>(
                old(visitor).state(),
                params@,
                0,
            ),
        decreases params.len() - i,
    {
        visitor.visit_binding(&params[i]);
        i += 1;
    }
}

/// Walks over `nodes[from..]` in order, without entering a block.
pub fn walk_nodes<'a, V: NodeVisitor<'a>>(
    visitor: &mut V,
    nodes: &Vec<Located<Node<'a>>>,
    from: usize,
)
    ensures
        final(visitor).state() == after_nodes::<V>(old(visitor).state(), nodes@, from as int),
    decreases *nodes, nodes.len() - from,
{
    if from < nodes.len() {
        walk_node(visitor, &nodes[from]);
        walk_nodes(visitor, nodes, from + 1);
    }
}

/// Walks over `block`: enters it, visits its nodes in order, and leaves it.
pub fn walk_block<'a, V: NodeVisitor<'a>>(visitor: &mut V, block: &Block<'a>)
    ensures
        final(visitor).state() == after_block::<V>(old(visitor).state(), *block),
    decreases *block, block.len() + 1,
{
    proof {
        lemma_block_keeps_depth::<V>(visitor.state(), block@);
    }
    visitor.enter_block();
    walk_nodes(visitor, block, 0);
    visitor.leave_block();
}

} // verus!
