//! Front end and evaluation core of a small, statically typed,
//! expression-oriented functional language.
//!
//! A program travels through the stages in this order: the located syntax tree
//! ([`ast`]), the resolved mid-level terms ([`mir`]), the type checker
//! ([`ty`]), the nameless low-level terms ([`lir`]) and the evaluator
//! ([`machine`]).
use vstd::prelude::*;
use vstd::std_specs::convert::FromSpecImpl;

pub mod analysis;
pub mod ast;
pub mod lir;
pub mod location;
pub mod machine;
pub mod mir;
pub mod parser;
pub mod ty;
pub mod visitor;

pub use location::{LineColumn, Located, Location};

use ast::{block_within, Block};
use machine::soundness::lemma_well_typed_is_sound;
use machine::{Fault, Machine, Value, DEFAULT_DEPTH_LIMIT};
use mir::lower::lemma_lower_seq_within;
use parser::grammar::spec_parse;
use parser::tree::block_tree;
use parser::ParsingError;
use ty::check::{lemma_type_of_within, spec_ty_check};
use ty::TyError;

verus! {

/// The result of the stages that can reject a program.
pub type LangResult<'a, T> = Result<T, LangError<'a>>;

/// How the evaluation of an accepted program ended.
pub type Evaluation = Result<Value, Fault>;

/// Why a program was rejected: it has no type, or it is no program at all.
#[derive(Debug, Eq, PartialEq)]
pub enum LangError<'a> {
    Ty(TyError<'a>),
    Parse(ParsingError),
}

impl<'a> From<ParsingError> for LangError<'a> {
    fn from(err: ParsingError) -> (error: LangError<'a>) {
        LangError::Parse(err)
    }
}

impl<'a> FromSpecImpl<ParsingError> for LangError<'a> {
    open spec fn obeys_from_spec() -> bool {
        true
    }

    open spec fn from_spec(err: ParsingError) -> LangError<'a> {
        LangError::Parse(err)
    }
}

impl<'a> From<TyError<'a>> for LangError<'a> {
    fn from(err: TyError<'a>) -> (error: LangError<'a>) {
        LangError::Ty(err)
    }
}

impl<'a> FromSpecImpl<TyError<'a>> for LangError<'a> {
    open spec fn obeys_from_spec() -> bool {
        true
    }

    open spec fn from_spec(err: TyError<'a>) -> LangError<'a> {
        LangError::Ty(err)
    }
}

impl<'a> LangError<'a> {
    pub open spec fn spec_loc(self) -> Location {
        match self {
            LangError::Ty(error) => error.spec_loc(),
            LangError::Parse(error) => error.loc,
        }
    }

    pub open spec fn spec_message(self) -> Seq<char> {
        match self {
            LangError::Ty(error) => error.spec_message(),
            LangError::Parse(error) => error.spec_message(),
        }
    }

    /// The error in words.
    pub fn message(&self) -> (text: String)
        ensures
            text@ == self.spec_message(),
    {
        match self {
            LangError::Ty(error) => error.message(),
            LangError::Parse(error) => error.message(),
        }
    }

    /// The one place in the source text that the error points at.
    pub fn loc(&self) -> (loc: Location)
        ensures
            loc == self.spec_loc(),
    {
        match self {
            LangError::Ty(error) => error.loc(),
            LangError::Parse(error) => error.loc,
        }
    }
}

/// What becomes of a program that has been parsed: it is lowered, then
/// type-checked, then lowered again and evaluated by a machine that lets
/// calls nest `depth_limit` deep. The first stage that fails ends the run.
pub open spec fn spec_run_block<'a>(block: Located<Block<'a>>, depth_limit: usize) -> LangResult<
    'a,
    Evaluation,
> {
    match mir::Term::spec_from_block(block) {
        Ok(term) => match spec_ty_check(term) {
            Ok(_) => Ok(Machine { depth_limit }.spec_evaluate(lir::Term::spec_from_mir(term))),
            Err(error) => Err(LangError::Ty(error)),
        },
        Err(error) => Err(LangError::Ty(error)),
    }
}

/// Every error of a program whose locations lie in a text points at a place
/// in that text.
pub proof fn lemma_errors_point_into_text<'a>(
    block: Located<Block<'a>>,
    depth_limit: usize,
    len: nat,
)
    requires
        block_within(block, len),
    ensures
        spec_run_block(block, depth_limit) matches Err(error) ==> error.spec_loc().within(len),
{
    lemma_lower_seq_within(Seq::empty(), block.content@, 0, block.loc, len);
    match mir::Term::spec_from_block(block) {
        Ok(term) => {
            lemma_type_of_within(Seq::empty(), term, len);
        },
        Err(_) => {},
    }
}

/// Runs a program that has been parsed, on the default machine.
///
/// The evaluation of a program that the type checker has accepted does not
/// get stuck: it ends in a value, or in a fault that comes from the values
/// the program met, not from the way it is put together.
pub fn run_block<'a>(block: Located<Block<'a>>) -> (res: LangResult<'a, Evaluation>)
    ensures
        res == spec_run_block(block, DEFAULT_DEPTH_LIMIT),
        res matches Ok(Err(fault)) ==> !fault.spec_is_stuck(),
{
    let term = match mir::Term::from_block(block) {
        Ok(term) => term,
        Err(error) => {
            return Err(LangError::Ty(error));
        },
    };
    match ty::ty_check(&term) {
        Ok(_) => {},
        Err(error) => {
            return Err(LangError::Ty(error));
        },
    }
    proof {
        lemma_well_typed_is_sound(term, DEFAULT_DEPTH_LIMIT as nat);
    }
    let lowered = lir::Term::from_mir(term);
    let machine = Machine::default();
    Ok(machine.evaluate(lowered))
}

/// Runs a program from its source text: parses it, and runs what was parsed
/// as [`run_block`] does.
///
/// A text that is no program gives the parsing error. Otherwise the outcome
/// is that of the block whose tree the grammar finds in the text. Whatever
/// the error, it points at a place in the text.
pub fn run<'a>(input: &'a str) -> (res: LangResult<'a, Evaluation>)
    ensures
        match spec_parse(input@) {
            Ok(tree) => exists|block: Located<Block<'a>>| #[trigger]
                block_tree(block) == tree && res == spec_run_block(block, DEFAULT_DEPTH_LIMIT),
            Err(error) => res == Err::<Evaluation, _>(LangError::Parse(error)),
        },
        res matches Ok(Err(fault)) ==> !fault.spec_is_stuck(),
        res matches Err(error) ==> error.spec_loc().within(input@.len()),
{
    match parser::parse(input) {
        Ok(block) => {
            proof {
                lemma_errors_point_into_text(block, DEFAULT_DEPTH_LIMIT, input@.len());
            }
            run_block(block)
        },
        Err(error) => Err(LangError::Parse(error)),
    }
}

} // verus!
