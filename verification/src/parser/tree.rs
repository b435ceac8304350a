//! The syntax tree as a mathematical value: a name is its text, and a list of
//! nodes is a sequence. The grammar is stated over these.
use vstd::prelude::*;

use crate::ast::{BinOp, Literal, Name, Node, UnOp};
use crate::location::Located;
use crate::parser::ParsingResult;
use crate::ty::{Binding, Ty};

verus! {

/// The text of a name, with the type that a parameter binds it to.
pub type Param = (Seq<char>, Ty);

/// What a [`Node`] holds.
pub enum Tree {
    BinaryOp(BinOp, Box<Located<Tree>>, Box<Located<Tree>>),
    UnaryOp(UnOp, Box<Located<Tree>>),
    LetBind(Located<Seq<char>>, Option<Located<Ty>>, Box<Located<Tree>>),
    Cond(Located<Seq<Located<Tree>>>, Located<Seq<Located<Tree>>>, Located<Seq<Located<Tree>>>),
    FnDef(
        Option<Located<Seq<char>>>,
        Seq<Located<Param>>,
        Located<Seq<Located<Tree>>>,
        Option<Located<Ty>>,
    ),
    FnRecDef(Located<Seq<char>>, Seq<Located<Param>>, Located<Seq<Located<Tree>>>, Located<Ty>),
    Call(Located<Seq<char>>, Seq<Located<Tree>>),
    Literal(Literal),
    Name(Seq<char>),
}

/// What a located name holds.
pub open spec fn name_tree(name: Located<Name<'_>>) -> Located<Seq<char>> {
    Located { content: name.content@, loc: name.loc }
}

/// What the first `upto` of `params` hold.
pub open spec fn params_tree(params: Seq<Located<Binding<'_>>>, upto: int) -> Seq<Located<Param>>
    decreases upto,
{
    if 0 < upto <= params.len() {
        params_tree(params, upto - 1).push(
            Located {
                content: (params[upto - 1].content.name@, params[upto - 1].content.ty),
                loc: params[upto - 1].loc,
            },
        )
    } else {
        Seq::empty()
    }
}

/// What a located node holds.
pub open spec fn node_tree(node: Located<Node<'_>>) -> Located<Tree>
    decreases node,
{
    let content = match node.content {
        Node::BinaryOp(op, left, right) => Tree::BinaryOp(
            op,
            Box::new(node_tree(*left)),
            Box::new(node_tree(*right)),
        ),
        Node::UnaryOp(op, operand) => Tree::UnaryOp(op, Box::new(node_tree(*operand))),
        Node::LetBind(name, ty, value) => Tree::LetBind(
            name_tree(name),
            ty,
            Box::new(node_tree(*value)),
        ),
        Node::Cond(condition, then_block, else_block) => Tree::Cond(
            Located {
                content: nodes_tree(condition.content@, condition.content@.len() as int),
                loc: condition.loc,
            },
            Located {
                content: nodes_tree(then_block.content@, then_block.content@.len() as int),
                loc: then_block.loc,
            },
            Located {
                content: nodes_tree(else_block.content@, else_block.content@.len() as int),
                loc: else_block.loc,
            },
        ),
        Node::FnDef(name, params, body, ret) => Tree::FnDef(
            match name {
                Some(name) => Some(name_tree(name)),
                None => None,
            },
            params_tree(params@, params@.len() as int),
            Located {
                content: nodes_tree(body.content@, body.content@.len() as int),
                loc: body.loc,
            },
            ret,
        ),
        Node::FnRecDef(name, params, body, ret) => Tree::FnRecDef(
            name_tree(name),
            params_tree(params@, params@.len() as int),
            Located {
                content: nodes_tree(body.content@, body.content@.len() as int),
                loc: body.loc,
            },
            ret,
        ),
        Node::Call(callee, args) => Tree::Call(
            name_tree(callee),
            nodes_tree(args@, args@.len() as int),
        ),
        Node::Literal(literal) => Tree::Literal(literal),
        Node::Name(name) => Tree::Name(name@),
    };
    Located { content, loc: node.loc }
}

/// What the first `upto` of `nodes` hold.
pub open spec fn nodes_tree(nodes: Seq<Located<Node<'_>>>, upto: int) -> Seq<Located<Tree>>
    decreases nodes, upto,
{
    if 0 < upto <= nodes.len() {
        nodes_tree(nodes, upto - 1).push(node_tree(nodes[upto - 1]))
    } else {
        Seq::empty()
    }
}

/// What a block holds.
pub open spec fn block_tree(block: Located<Vec<Located<Node<'_>>>>) -> Located<Seq<Located<Tree>>> {
    Located { content: nodes_tree(block.content@, block.content@.len() as int), loc: block.loc }
}

/// What the first nodes of a list hold is not changed by a node that is added at its end.
pub proof fn lemma_nodes_tree_push(nodes: Seq<Located<Node<'_>>>, node: Located<Node<'_>>, upto: int)
    requires
        upto <= nodes.len(),
    ensures
        nodes_tree(nodes.push(node), upto) == nodes_tree(nodes, upto),
    decreases upto,
{
    if 0 < upto {
        lemma_nodes_tree_push(nodes, node, upto - 1);
        assert(nodes.push(node)[upto - 1] == nodes[upto - 1]);
    }
}

/// What the first parameters of a list hold is not changed by one that is added at its end.
pub proof fn lemma_params_tree_push(
    params: Seq<Located<Binding<'_>>>,
    param: Located<Binding<'_>>,
    upto: int,
)
    requires
        upto <= params.len(),
    ensures
        params_tree(params.push(param), upto) == params_tree(params, upto),
    decreases upto,
{
    if 0 < upto {
        lemma_params_tree_push(params, param, upto - 1);
        assert(params.push(param)[upto - 1] == params[upto - 1]);
    }
}

/// The first `upto` trees of a list of nodes are those of its first `upto` nodes.
pub proof fn lemma_nodes_tree_index(nodes: Seq<Located<Node<'_>>>, upto: int)
    requires
        0 <= upto <= nodes.len(),
    ensures
        nodes_tree(nodes, upto).len() == upto,
        forall|i: int| 0 <= i < upto ==> (#[trigger] nodes_tree(nodes, upto)[i]) == node_tree(nodes[i]),
    decreases upto,
{
    if 0 < upto {
        lemma_nodes_tree_index(nodes, upto - 1);
    }
}

/// What the outcome of parsing a name holds.
pub open spec fn name_outcome(res: ParsingResult<(Located<Name<'_>>, usize)>) -> ParsingResult<
    (Located<Seq<char>>, int),
> {
    match res {
        Ok((name, end)) => Ok((name_tree(name), end as int)),
        Err(error) => Err(error),
    }
}

/// What the outcome of parsing a type holds.
pub open spec fn ty_outcome(res: ParsingResult<(Located<Ty>, usize)>) -> ParsingResult<
    (Located<Ty>, int),
> {
    match res {
        Ok((ty, end)) => Ok((ty, end as int)),
        Err(error) => Err(error),
    }
}

/// What a parameter holds.
pub open spec fn param_tree(param: Located<Binding<'_>>) -> Located<Param> {
    Located { content: (param.content.name@, param.content.ty), loc: param.loc }
}

/// What the outcome of parsing a parameter holds.
pub open spec fn param_outcome(res: ParsingResult<(Located<Binding<'_>>, usize)>) -> ParsingResult<
    (Located<Param>, int),
> {
    match res {
        Ok((param, end)) => Ok((param_tree(param), end as int)),
        Err(error) => Err(error),
    }
}

/// What the outcome of parsing a list of parameters holds.
pub open spec fn params_outcome(
    res: ParsingResult<(Vec<Located<Binding<'_>>>, usize)>,
) -> ParsingResult<(Seq<Located<Param>>, int)> {
    match res {
        Ok((params, end)) => Ok((params_tree(params@, params@.len() as int), end as int)),
        Err(error) => Err(error),
    }
}

/// What the outcome of parsing a node holds.
pub open spec fn node_outcome(res: ParsingResult<(Located<Node<'_>>, usize)>) -> ParsingResult<
    (Located<Tree>, int),
> {
    match res {
        Ok((node, end)) => Ok((node_tree(node), end as int)),
        Err(error) => Err(error),
    }
}

/// What the outcome of parsing a list of nodes holds.
pub open spec fn nodes_outcome(
    res: ParsingResult<(Vec<Located<Node<'_>>>, usize)>,
) -> ParsingResult<(Seq<Located<Tree>>, int)> {
    match res {
        Ok((nodes, end)) => Ok((nodes_tree(nodes@, nodes@.len() as int), end as int)),
        Err(error) => Err(error),
    }
}

/// What the outcome of parsing a block holds.
pub open spec fn block_outcome(
    res: ParsingResult<(Located<Vec<Located<Node<'_>>>>, usize)>,
) -> ParsingResult<(Located<Seq<Located<Tree>>>, int)> {
    match res {
        Ok((block, end)) => Ok((block_tree(block), end as int)),
        Err(error) => Err(error),
    }
}

/// True when the outcome of parsing from `pos` on in a text of `len`
/// characters ends at or behind `pos` and inside the text, or is an error
/// that points into the text.
pub open spec fn proceeds<T>(res: ParsingResult<(T, usize)>, pos: usize, len: usize) -> bool {
    match res {
        Ok((_, end)) => pos <= end <= len,
        Err(error) => error.loc.within(len as nat),
    }
}

} // verus!
