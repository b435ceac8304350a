//! The located abstract syntax tree.
use vstd::prelude::*;
use vstd::std_specs::convert::FromSpecImpl;
use vstd::string::StringExecFns;
use vstd::string::StringSliceAdditionalSpecFns;
use vstd::utf8::decode_utf8;

use crate::location::Located;
use crate::ty::{Binding, Ty};

verus! {

/// An ordered sequence of nodes; its value is that of its last element.
pub type Block<'a> = Vec<Located<Node<'a>>>;

/// An identifier, borrowed from the source text.
#[derive(Debug, Clone, Copy, Eq, PartialEq)]
pub struct Name<'a>(pub &'a str);

impl<'a> View for Name<'a> {
    type V = Seq<char>;

    open spec fn view(&self) -> Seq<char> {
        self.0@
    }
}

/// True when the two texts hold the same characters.
pub fn same_text(a: &str, b: &str) -> (same: bool)
    ensures
        same == (a@ == b@),
{
    let x = a.as_bytes();
    let y = b.as_bytes();
    proof {
        vstd::utf8::encode_utf8_decode_utf8(a@);
        vstd::utf8::encode_utf8_decode_utf8(b@);
    }
    if x.len() != y.len() {
        return false;
    }
    let mut i: usize = 0;
    while i < x.len()
        invariant
            x.len() == y.len(),
            i <= x.len(),
            forall|j: int| 0 <= j < i ==> x@[j] == y@[j],
            x@ == a.spec_bytes(),
            y@ == b.spec_bytes(),
            decode_utf8(a.spec_bytes()) == a@,
            decode_utf8(b.spec_bytes()) == b@,
        decreases x.len() - i,
    {
        if x[i] != y[i] {
            return false;
        }
        i += 1;
    }
    assert(x@ =~= y@);
    true
}

impl<'a> Name<'a> {
    /// Names are equal when their texts are.
    pub fn same(&self, other: &Name<'_>) -> (same: bool)
        ensures
            same == (self@ == other@),
    {
        same_text(self.0, other.0)
    }

    /// The name as it is written.
    pub fn to_text(&self) -> (text: String)
        ensures
            text@ == self@,
    {
        String::from_str(self.0)
    }
}

/// The binary operators.
#[derive(Debug, Clone, Copy, Eq, PartialEq, Structural)]
pub enum BinOp {
    Add,
    Sub,
    Mul,
    Div,
    Rem,
    And,
    Or,
    BitAnd,
    BitOr,
    BitXor,
    Shr,
    Shl,
    Eq,
    Neq,
    Lt,
    Gt,
    Lte,
    Gte,
}

/// The kinds that the binary operators fall into, by the types they work on.
#[derive(Debug, Clone, Copy, Eq, PartialEq, Structural)]
pub enum BinOpKind {
    /// Two integers to an integer.
    Arithmetic,
    /// Two booleans to a boolean.
    Logical,
    /// Two integers to a boolean.
    Comparison,
    /// Two values of one basic type to a boolean.
    Equality,
}

impl BinOp {
    pub open spec fn spec_symbol(self) -> Seq<char> {
        match self {
            BinOp::Add => "+"@,
            BinOp::Sub => "-"@,
            BinOp::Mul => "*"@,
            BinOp::Div => "/"@,
            BinOp::Rem => "%"@,
            BinOp::And => "&&"@,
            BinOp::Or => "||"@,
            BinOp::BitAnd => "&"@,
            BinOp::BitOr => "|"@,
            BinOp::BitXor => "^"@,
            BinOp::Shr => ">>"@,
            BinOp::Shl => "<<"@,
            BinOp::Eq => "=="@,
            BinOp::Neq => "!="@,
            BinOp::Lt => "<"@,
            BinOp::Gt => ">"@,
            BinOp::Lte => "<="@,
            BinOp::Gte => ">="@,
        }
    }

    /// The operator as it is written in source text.
    pub fn symbol(&self) -> (text: &'static str)
        ensures
            text@ == self.spec_symbol(),
    {
        match self {
            BinOp::Add => "+",
            BinOp::Sub => "-",
            BinOp::Mul => "*",
            BinOp::Div => "/",
            BinOp::Rem => "%",
            BinOp::And => "&&",
            BinOp::Or => "||",
            BinOp::BitAnd => "&",
            BinOp::BitOr => "|",
            BinOp::BitXor => "^",
            BinOp::Shr => ">>",
            BinOp::Shl => "<<",
            BinOp::Eq => "==",
            BinOp::Neq => "!=",
            BinOp::Lt => "<",
            BinOp::Gt => ">",
            BinOp::Lte => "<=",
            BinOp::Gte => ">=",
        }
    }

    pub open spec fn spec_kind(self) -> BinOpKind {
        match self {
            BinOp::Add | BinOp::Sub | BinOp::Mul | BinOp::Div | BinOp::Rem | BinOp::BitAnd
            | BinOp::BitOr | BinOp::BitXor | BinOp::Shr | BinOp::Shl => BinOpKind::Arithmetic,
            BinOp::And | BinOp::Or => BinOpKind::Logical,
            BinOp::Lt | BinOp::Gt | BinOp::Lte | BinOp::Gte => BinOpKind::Comparison,
            BinOp::Eq | BinOp::Neq => BinOpKind::Equality,
        }
    }

    /// The kind of the operator, which fixes the types of its operands and result.
    pub fn kind(&self) -> (kind: BinOpKind)
        ensures
            kind == self.spec_kind(),
    {
        match self {
            BinOp::Add | BinOp::Sub | BinOp::Mul | BinOp::Div | BinOp::Rem | BinOp::BitAnd
            | BinOp::BitOr | BinOp::BitXor | BinOp::Shr | BinOp::Shl => BinOpKind::Arithmetic,
            BinOp::And | BinOp::Or => BinOpKind::Logical,
            BinOp::Lt | BinOp::Gt | BinOp::Lte | BinOp::Gte => BinOpKind::Comparison,
            BinOp::Eq | BinOp::Neq => BinOpKind::Equality,
        }
    }
}

/// The unary operators.
#[derive(Debug, Clone, Copy, Eq, PartialEq, Structural)]
pub enum UnOp {
    Neg,
    Not,
}

impl UnOp {
    pub open spec fn spec_symbol(self) -> Seq<char> {
        match self {
            UnOp::Not => "!"@,
            UnOp::Neg => "-"@,
        }
    }

    /// The operator as it is written in source text.
    pub fn symbol(&self) -> (text: &'static str)
        ensures
            text@ == self.spec_symbol(),
    {
        match self {
            UnOp::Not => "!",
            UnOp::Neg => "-",
        }
    }
}

/// The values that can be written down directly.
#[derive(Debug, Clone, Copy, Eq, PartialEq, Structural)]
pub enum Literal {
    Bool(bool),
    Unit,
    Number(i128),
}

impl From<i128> for Literal {
    fn from(number: i128) -> (literal: Literal) {
        Literal::Number(number)
    }
}

impl FromSpecImpl<i128> for Literal {
    open spec fn obeys_from_spec() -> bool {
        true
    }

    open spec fn from_spec(number: i128) -> Literal {
        Literal::Number(number)
    }
}

impl From<bool> for Literal {
    fn from(truth: bool) -> (literal: Literal) {
        Literal::Bool(truth)
    }
}

impl FromSpecImpl<bool> for Literal {
    open spec fn obeys_from_spec() -> bool {
        true
    }

    open spec fn from_spec(truth: bool) -> Literal {
        Literal::Bool(truth)
    }
}

/// The decimal digit `d` as text.
pub open spec fn spec_digit(d: int) -> Seq<char> {
    if d == 0 {
        "0"@
    } else if d == 1 {
        "1"@
    } else if d == 2 {
        "2"@
    } else if d == 3 {
        "3"@
    } else if d == 4 {
        "4"@
    } else if d == 5 {
        "5"@
    } else if d == 6 {
        "6"@
    } else if d == 7 {
        "7"@
    } else if d == 8 {
        "8"@
    } else {
        "9"@
    }
}

/// The decimal digits of `n`, the most significant first.
pub open spec fn spec_digits(n: nat) -> Seq<char>
    decreases n,
{
    if n < 10 {
        spec_digit(n as int)
    } else {
        spec_digits(n / 10) + spec_digit((n % 10) as int)
    }
}

/// The integer `n` in decimal notation, with a minus sign if it is negative.
pub open spec fn spec_decimal(n: int) -> Seq<char> {
    if n < 0 {
        "-"@ + spec_digits((-n) as nat)
    } else {
        spec_digits(n as nat)
    }
}

/// A decimal digit as text.
pub fn digit(d: u8) -> (text: &'static str)
    requires
        d < 10,
    ensures
        text@ == spec_digit(d as int),
{
    if d == 0 {
        "0"
    } else if d == 1 {
        "1"
    } else if d == 2 {
        "2"
    } else if d == 3 {
        "3"
    } else if d == 4 {
        "4"
    } else if d == 5 {
        "5"
    } else if d == 6 {
        "6"
    } else if d == 7 {
        "7"
    } else if d == 8 {
        "8"
    } else {
        "9"
    }
}

/// The decimal digits of `n`, the most significant first.
pub fn digits(n: u128) -> (text: String)
    ensures
        text@ == spec_digits(n as nat),
    decreases n,
{
    if n < 10 {
        String::from_str(digit(n as u8))
    } else {
        let mut text = digits(n / 10);
        text.append(digit((n % 10) as u8));
        text
    }
}

/// The integer `n` in decimal notation.
pub fn decimal(n: i128) -> (text: String)
    ensures
        text@ == spec_decimal(n as int),
{
    if n < 0 {
        // The magnitude of the smallest integer does not fit into the signed type.
        let magnitude: u128 = (-(n + 1)) as u128 + 1;
        let mut text = String::from_str("-");
        let number = digits(magnitude);
        text.append(number.as_str());
        text
    } else {
        digits(n as u128)
    }
}

impl Literal {
    pub open spec fn spec_text(self) -> Seq<char> {
        match self {
            Literal::Bool(true) => "true"@,
            Literal::Bool(false) => "false"@,
            Literal::Unit => "unit"@,
            Literal::Number(n) => spec_decimal(n as int),
        }
    }

    /// The literal as it is written in source text.
    pub fn to_text(&self) -> (text: String)
        ensures
            text@ == self.spec_text(),
    {
        match self {
            Literal::Bool(true) => String::from_str("true"),
            Literal::Bool(false) => String::from_str("false"),
            Literal::Unit => String::from_str("unit"),
            Literal::Number(n) => decimal(*n),
        }
    }

    /// The type that the literal has.
    pub open spec fn spec_ty(self) -> Ty {
        match self {
            Literal::Bool(_) => Ty::Bool,
            Literal::Unit => Ty::Unit,
            Literal::Number(_) => Ty::Int,
        }
    }

    pub fn ty(&self) -> (ty: Ty)
        ensures
            ty == self.spec_ty(),
    {
        match self {
            Literal::Bool(_) => Ty::Bool,
            Literal::Unit => Ty::Unit,
            Literal::Number(_) => Ty::Int,
        }
    }
}

/// A node of the syntax tree.
#[derive(Debug, Eq, PartialEq)]
pub enum Node<'a> {
    BinaryOp(BinOp, Box<Located<Node<'a>>>, Box<Located<Node<'a>>>),
    UnaryOp(UnOp, Box<Located<Node<'a>>>),
    LetBind(Located<Name<'a>>, Option<Located<Ty>>, Box<Located<Node<'a>>>),
    Cond(Located<Block<'a>>, Located<Block<'a>>, Located<Block<'a>>),
    FnDef(
        Option<Located<Name<'a>>>,
        Vec<Located<Binding<'a>>>,
        Located<Block<'a>>,
        Option<Located<Ty>>,
    ),
    FnRecDef(Located<Name<'a>>, Vec<Located<Binding<'a>>>, Located<Block<'a>>, Located<Ty>),
    Call(Located<Name<'a>>, Block<'a>),
    Literal(Literal),
    Name(Name<'a>),
}

/// True when the location of an annotation, if there is one, lies in a text
/// of `len` positions.
pub open spec fn annotation_within(ty: Option<Located<Ty>>, len: nat) -> bool {
    ty is Some ==> ty->0.loc.within(len)
}

/// True when the locations of all parameters lie in a text of `len` positions.
pub open spec fn params_within(params: Seq<Located<Binding<'_>>>, len: nat) -> bool {
    forall|i: int| 0 <= i < params.len() ==> (#[trigger] params[i]).loc.within(len)
}

/// True when every location in the node lies in a text of `len` positions.
pub open spec fn node_within(node: Located<Node<'_>>, len: nat) -> bool
    decreases node,
{
    node.loc.within(len) && match node.content {
        Node::BinaryOp(_, left, right) => node_within(*left, len) && node_within(*right, len),
        Node::UnaryOp(_, operand) => node_within(*operand, len),
        Node::LetBind(name, ty, value) => name.loc.within(len) && annotation_within(ty, len)
            && node_within(*value, len),
        Node::Cond(condition, then_block, else_block) => condition.loc.within(len)
            && nodes_within(condition.content@, len) && then_block.loc.within(len)
            && nodes_within(then_block.content@, len) && else_block.loc.within(len)
            && nodes_within(else_block.content@, len),
        Node::FnDef(name, params, body, ret) => (name is Some ==> name->0.loc.within(len))
            && params_within(params@, len) && body.loc.within(len) && nodes_within(
            body.content@,
            len,
        ) && annotation_within(ret, len),
        Node::FnRecDef(name, params, body, ret) => name.loc.within(len) && params_within(
            params@,
            len,
        ) && body.loc.within(len) && nodes_within(body.content@, len) && ret.loc.within(len),
        Node::Call(callee, args) => callee.loc.within(len) && nodes_within(args@, len),
        Node::Literal(_) => true,
        Node::Name(_) => true,
    }
}

/// True when every location in the nodes lies in a text of `len` positions.
pub open spec fn nodes_within(nodes: Seq<Located<Node<'_>>>, len: nat) -> bool
    decreases nodes,
{
    forall|i: int| 0 <= i < nodes.len() ==> node_within(#[trigger] nodes[i], len)
}

/// True when every location in the block lies in a text of `len` positions.
pub open spec fn block_within(block: Located<Block<'_>>, len: nat) -> bool {
    block.loc.within(len) && nodes_within(block.content@, len)
}

} // verus!
