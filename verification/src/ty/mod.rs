//! The type system: types, bindings and typing errors.
use vstd::prelude::*;
use vstd::string::StringExecFns;

use crate::ast::Name;
use crate::location::{Located, Location};

pub mod check;

pub use check::ty_check;

verus! {

/// The type of a term.
#[derive(Debug, Eq, PartialEq)]
pub enum Ty {
    /// The type of booleans.
    Bool,
    /// The type of signed integers.
    Int,
    /// The type with a single value.
    Unit,
    /// The type of functions from the first type to the second.
    Arrow(Box<Ty>, Box<Ty>),
}

impl Clone for Ty {
    fn clone(&self) -> (copy: Ty)
        ensures
            copy == *self,
        decreases *self,
    {
        match self {
            Ty::Bool => Ty::Bool,
            Ty::Int => Ty::Int,
            Ty::Unit => Ty::Unit,
            Ty::Arrow(from, to) => {
                let from_copy = (**from).clone();
                let to_copy = (**to).clone();
                Ty::Arrow(Box::new(from_copy), Box::new(to_copy))
            },
        }
    }
}

impl Ty {
    /// Types are compared by deep equality.
    pub fn equals(&self, other: &Ty) -> (same: bool)
        ensures
            same == (*self == *other),
        decreases *self,
    {
        match (self, other) {
            (Ty::Bool, Ty::Bool) => true,
            (Ty::Int, Ty::Int) => true,
            (Ty::Unit, Ty::Unit) => true,
            (Ty::Arrow(from, to), Ty::Arrow(other_from, other_to)) => {
                (**from).equals(&**other_from) && (**to).equals(&**other_to)
            },
            _ => false,
        }
    }

    /// The type as it is written: the arrow associates to the right, so a
    /// function type that is the parameter of another stands in brackets.
    pub open spec fn spec_text(self) -> Seq<char>
        decreases self,
    {
        match self {
            Ty::Bool => "Bool"@,
            Ty::Int => "Int"@,
            Ty::Unit => "Unit"@,
            Ty::Arrow(from, to) => if *from is Arrow {
                "("@ + from.spec_text() + ") -> "@ + to.spec_text()
            } else {
                from.spec_text() + " -> "@ + to.spec_text()
            },
        }
    }

    /// The type as it is written.
    pub fn to_text(&self) -> (text: String)
        ensures
            text@ == self.spec_text(),
        decreases *self,
    {
        match self {
            Ty::Bool => String::from_str("Bool"),
            Ty::Int => String::from_str("Int"),
            Ty::Unit => String::from_str("Unit"),
            Ty::Arrow(from, to) => {
                let from_text = (**from).to_text();
                let to_text = (**to).to_text();
                let mut text = if (**from).is_basic() {
                    from_text
                } else {
                    let mut text = String::from_str("(");
                    text.append(from_text.as_str());
                    text.append(")");
                    text
                };
                text.append(" -> ");
                text.append(to_text.as_str());
                proof {
                    let opened = "("@ + from.spec_text();
                    assert(")"@ + " -> "@ =~= ") -> "@) by {
                        reveal_strlit(")");
                        reveal_strlit(" -> ");
                        reveal_strlit(") -> ");
                    }
                    assert((opened + ")"@) + " -> "@ =~= opened + (")"@ + " -> "@));
                }
                text
            },
        }
    }

    /// True for every type but the function types.
    pub open spec fn spec_is_basic(self) -> bool {
        !(self is Arrow)
    }

    pub fn is_basic(&self) -> (basic: bool)
        ensures
            basic == self.spec_is_basic(),
    {
        match self {
            Ty::Arrow(_, _) => false,
            _ => true,
        }
    }
}

/// A name together with the type it is bound to.
#[derive(Debug, Eq, PartialEq)]
pub struct Binding<'a> {
    pub name: Name<'a>,
    pub ty: Ty,
}

impl<'a> Clone for Binding<'a> {
    fn clone(&self) -> (copy: Binding<'a>)
        ensures
            copy == *self,
    {
        Binding { name: self.name, ty: self.ty.clone() }
    }
}

/// A copy of a located type.
pub fn copy_located_ty(ty: &Located<Ty>) -> (copy: Located<Ty>)
    ensures
        copy == *ty,
{
    Located { content: ty.content.clone(), loc: ty.loc }
}

/// A copy of a type annotation that may be absent.
pub fn copy_annotation(ty: &Option<Located<Ty>>) -> (copy: Option<Located<Ty>>)
    ensures
        copy == *ty,
{
    match ty {
        Some(ty) => Some(copy_located_ty(ty)),
        None => None,
    }
}

/// The function type that takes `params[from..]` one after the other and gives `ret`.
pub open spec fn spec_arrows(params: Seq<Located<Binding<'_>>>, from: int, ret: Ty) -> Ty
    decreases params.len() - from,
{
    if 0 <= from < params.len() {
        Ty::Arrow(Box::new(params[from].content.ty), Box::new(spec_arrows(params, from + 1, ret)))
    } else {
        ret
    }
}

/// The function type that takes `params` one after the other and gives `ret`.
pub fn arrows(params: &Vec<Located<Binding<'_>>>, ret: &Ty) -> (ty: Ty)
    ensures
        ty == spec_arrows(params@, 0, *ret),
{
    let mut ty = ret.clone();
    let mut i: usize = params.len();
    while i > 0
        invariant
            i <= params.len(),
            ty == spec_arrows(params@, i as int, *ret),
        decreases i,
    {
        i -= 1;
        ty = Ty::Arrow(Box::new(params[i].content.ty.clone()), Box::new(ty));
    }
    ty
}

/// The result of the functions that assign types.
pub type TyResult<'a, T = Ty> = Result<T, TyError<'a>>;

/// A reason why a term has no type.
#[derive(Debug, Eq, PartialEq)]
pub enum TyError<'a> {
    /// Two types that should be equal are not.
    Unexpected { expected: Ty, found: Located<Ty> },
    /// A name is not bound to any type in the current scope.
    Unbound(Located<Name<'a>>),
    /// A function type was required.
    ExpectedFn(Located<Ty>),
    /// A type that is no function type was required.
    ExpectedBasic(Located<Ty>),
    /// A type annotation that cannot be left out is missing.
    Missing(Located<()>),
}

impl<'a> TyError<'a> {
    pub open spec fn spec_loc(self) -> Location {
        match self {
            TyError::Unexpected { found, .. } => found.loc,
            TyError::Unbound(name) => name.loc,
            TyError::ExpectedFn(ty) => ty.loc,
            TyError::ExpectedBasic(ty) => ty.loc,
            TyError::Missing(unit) => unit.loc,
        }
    }

    pub open spec fn spec_message(self) -> Seq<char> {
        match self {
            TyError::Unexpected { expected, found } => "Unexpected type: expected "@
                + expected.spec_text() + ", found "@ + found.content.spec_text(),
            TyError::Unbound(name) => "Name "@ + name.content@ + " is not bounded"@,
            TyError::ExpectedFn(ty) => "Unexpected type: expected function, found "@
                + ty.content.spec_text(),
            TyError::ExpectedBasic(ty) => "Unexpected type: expected a basic type, found "@
                + ty.content.spec_text(),
            TyError::Missing(_) => "Missing type: type cannot be inferred"@,
        }
    }

    /// The error in words.
    pub fn message(&self) -> (text: String)
        ensures
            text@ == self.spec_message(),
    {
        match self {
            TyError::Unexpected { expected, found } => {
                let mut text = String::from_str("Unexpected type: expected ");
                text.append(expected.to_text().as_str());
                text.append(", found ");
                text.append(found.content.to_text().as_str());
                text
            },
            TyError::Unbound(name) => {
                let mut text = String::from_str("Name ");
                text.append(name.content.0);
                text.append(" is not bounded");
                text
            },
            TyError::ExpectedFn(ty) => {
                let mut text = String::from_str("Unexpected type: expected function, found ");
                text.append(ty.content.to_text().as_str());
                text
            },
            TyError::ExpectedBasic(ty) => {
                let mut text = String::from_str("Unexpected type: expected a basic type, found ");
                text.append(ty.content.to_text().as_str());
                text
            },
            TyError::Missing(_) => String::from_str("Missing type: type cannot be inferred"),
        }
    }

    /// The place in the source text that the error points at.
    pub fn loc(&self) -> (loc: Location)
        ensures
            loc == self.spec_loc(),
    {
        match self {
            TyError::Unexpected { found, .. } => found.loc,
            TyError::Unbound(name) => name.loc,
            TyError::ExpectedBasic(ty) | TyError::ExpectedFn(ty) => ty.loc,
            TyError::Missing(unit) => unit.loc,
        }
    }
}

/// Succeeds when `found` is the type `expected`, and reports the mismatch otherwise.
pub fn expect_ty<'a>(expected: &Ty, found: &Located<Ty>) -> (res: TyResult<'a, ()>)
    ensures
        res == spec_expect_ty::<'a>(*expected, *found),
{
    if expected.equals(&found.content) {
        Ok(())
    } else {
        Err(
            TyError::Unexpected {
                expected: expected.clone(),
                found: Located { content: found.content.clone(), loc: found.loc },
            },
        )
    }
}

pub open spec fn spec_expect_ty<'a>(expected: Ty, found: Located<Ty>) -> TyResult<'a, ()> {
    if expected == found.content {
        Ok(())
    } else {
        Err(TyError::Unexpected { expected, found })
    }
}

/// Succeeds when `found` is no function type.
pub fn ensure_basic<'a>(found: &Located<Ty>) -> (res: TyResult<'a, ()>)
    ensures
        res == spec_ensure_basic::<'a>(*found),
{
    if found.content.is_basic() {
        Ok(())
    } else {
        Err(TyError::ExpectedBasic(Located { content: found.content.clone(), loc: found.loc }))
    }
}

pub open spec fn spec_ensure_basic<'a>(found: Located<Ty>) -> TyResult<'a, ()> {
    if found.content.spec_is_basic() {
        Ok(())
    } else {
        Err(TyError::ExpectedBasic(found))
    }
}

} // verus!
