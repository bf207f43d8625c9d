//! The surface syntax: what the parser hands to the elaborator.
//!
//! Every node carries the range of the source text that it was read from.
//! An integer literal carries no number: the elaborator reads it from the
//! source text at the range of the node, in the base of the literal.

use crate::plicity::Plicity;
use crate::source::{Base, Located};
use crate::symbol::Symbol;
use vstd::prelude::*;

verus! {

/// A literal as it is written.
#[derive(Debug, Copy, Clone, PartialEq, Eq, Structural)]
pub enum Const {
    Bool(bool),
    DecInt,
    BinInt,
    HexInt,
}

impl Const {
    /// The base of an integer literal.
    pub fn base(self) -> (r: Option<Base>)
        ensures
            r == match self {
                Const::Bool(_) => None,
                Const::DecInt => Some(Base::Dec),
                Const::BinInt => Some(Base::Bin),
                Const::HexInt => Some(Base::Hex),
            },
    {
        match self {
            Const::Bool(_) => None,
            Const::DecInt => Some(Base::Dec),
            Const::BinInt => Some(Base::Bin),
            Const::HexInt => Some(Base::Hex),
        }
    }
}

/// A pattern.
#[derive(Debug, Copy, Clone)]
pub enum Pat<'surface> {
    Error,
    Underscore,
    Ident(Symbol<'surface>),
    Paren(&'surface Located<Pat<'surface>>),
    Lit(Const),
    RecordLit(&'surface Vec<PatField<'surface>>),
    Tuple(&'surface Vec<Located<Pat<'surface>>>),
}

/// A field of a record pattern.
#[derive(Debug, Copy, Clone)]
pub struct PatField<'surface> {
    pub name: Located<Symbol<'surface>>,
    pub pat: Located<Pat<'surface>>,
}

/// A parameter of a function type or literal.
#[derive(Debug, Copy, Clone)]
pub struct FunParam<'surface> {
    pub plicity: Plicity,
    pub pat: Located<Pat<'surface>>,
    pub ty: Option<Located<Expr<'surface>>>,
}

/// An argument of an application.
#[derive(Debug, Copy, Clone)]
pub struct FunArg<'surface> {
    pub plicity: Plicity,
    pub expr: &'surface Located<Expr<'surface>>,
}

/// A field of a record type.
#[derive(Debug, Copy, Clone)]
pub struct TypeField<'surface> {
    pub name: Located<Symbol<'surface>>,
    pub ty: Located<Expr<'surface>>,
}

/// A field of a record.
#[derive(Debug, Copy, Clone)]
pub struct ExprField<'surface> {
    pub name: Located<Symbol<'surface>>,
    pub expr: Located<Expr<'surface>>,
}

/// An arm of a match.
#[derive(Debug, Copy, Clone)]
pub struct MatchArm<'surface> {
    pub pat: Located<Pat<'surface>>,
    pub guard: Option<Located<Expr<'surface>>>,
    pub rhs: Located<Expr<'surface>>,
}

/// An expression.
#[derive(Debug, Copy, Clone)]
pub enum Expr<'surface> {
    Error,
    Const(Const),
    LocalVar(Symbol<'surface>),
    Hole,
    Paren(&'surface Located<Expr<'surface>>),
    Ann { expr: &'surface Located<Expr<'surface>>, ty: &'surface Located<Expr<'surface>> },
    Let {
        rec: bool,
        pat: &'surface Located<Pat<'surface>>,
        ty: Option<&'surface Located<Expr<'surface>>>,
        init: &'surface Located<Expr<'surface>>,
        body: &'surface Located<Expr<'surface>>,
    },
    If {
        cond: &'surface Located<Expr<'surface>>,
        then_branch: &'surface Located<Expr<'surface>>,
        else_branch: &'surface Located<Expr<'surface>>,
    },
    FunArrow {
        plicity: Plicity,
        lhs: &'surface Located<Expr<'surface>>,
        rhs: &'surface Located<Expr<'surface>>,
    },
    FunType {
        params: &'surface Vec<Located<FunParam<'surface>>>,
        body: &'surface Located<Expr<'surface>>,
    },
    FunLit {
        params: &'surface Vec<Located<FunParam<'surface>>>,
        body: &'surface Located<Expr<'surface>>,
    },
    FunApp { fun: &'surface Located<Expr<'surface>>, arg: Located<FunArg<'surface>> },
    TupleLit(&'surface Vec<Located<Expr<'surface>>>),
    ListLit(&'surface Vec<Located<Expr<'surface>>>),
    RecordType(&'surface Vec<TypeField<'surface>>),
    RecordLit(&'surface Vec<ExprField<'surface>>),
    RecordProj { scrut: &'surface Located<Expr<'surface>>, name: Located<Symbol<'surface>> },
    Match {
        scrut: &'surface Located<Expr<'surface>>,
        arms: &'surface Vec<MatchArm<'surface>>,
    },
}

} // verus!
