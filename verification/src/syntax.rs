//! Core terms.
//!
//! A term is first order: variables are de Bruijn indices, and every
//! sub-term is a shared reference into the arena of one elaboration. The
//! mathematical model of a term is [`Term`]; the contracts of this module
//! are stated over it.

use crate::arena::arena_alloc;
use crate::env::{AbsoluteVar, EnvLen, RelativeVar};
use crate::plicity::Plicity;
use crate::prim::Prim;
use crate::symbol::{name_text, Symbol};
use vstd::prelude::*;

verus! {

/// A literal.
#[derive(Debug, Copy, Clone, PartialEq, Eq, Structural)]
pub enum Const {
    Bool(bool),
    Int(u32),
}

/// The parameter of a function type or literal.
#[derive(Debug, Copy, Clone)]
pub struct FunParam<'core, T> {
    pub plicity: Plicity,
    pub name: Option<Symbol<'core>>,
    pub ty: T,
}

impl<'core, T> FunParam<'core, T> {
    pub fn new(plicity: Plicity, name: Option<Symbol<'core>>, ty: T) -> (p: Self)
        ensures
            p == (FunParam { plicity, name, ty }),
    {
        FunParam { plicity, name, ty }
    }

    pub fn explicit(name: Option<Symbol<'core>>, ty: T) -> (p: Self)
        ensures
            p == (FunParam { plicity: Plicity::Explicit, name, ty }),
    {
        Self::new(Plicity::Explicit, name, ty)
    }

    pub fn implicit(name: Option<Symbol<'core>>, ty: T) -> (p: Self)
        ensures
            p == (FunParam { plicity: Plicity::Implicit, name, ty }),
    {
        Self::new(Plicity::Implicit, name, ty)
    }
}

/// The argument of a function application.
#[derive(Debug, Copy, Clone)]
pub struct FunArg<T> {
    pub plicity: Plicity,
    pub expr: T,
}

impl<T> FunArg<T> {
    pub fn new(plicity: Plicity, expr: T) -> (a: Self)
        ensures
            a == (FunArg { plicity, expr }),
    {
        FunArg { plicity, expr }
    }

    pub fn explicit(expr: T) -> (a: Self)
        ensures
            a == (FunArg { plicity: Plicity::Explicit, expr }),
    {
        Self::new(Plicity::Explicit, expr)
    }

    pub fn implicit(expr: T) -> (a: Self)
        ensures
            a == (FunArg { plicity: Plicity::Implicit, expr }),
    {
        Self::new(Plicity::Implicit, expr)
    }
}

/// A core term.
#[derive(Debug, Copy, Clone)]
pub enum Expr<'core> {
    /// What elaboration leaves where it reported an error.
    Error,
    Lit(Const),
    Prim(Prim),
    LocalVar(RelativeVar),
    MetaVar(AbsoluteVar),
    /// Binds one variable in `body`.
    Let {
        name: Option<Symbol<'core>>,
        ty: &'core Expr<'core>,
        init: &'core Expr<'core>,
        body: &'core Expr<'core>,
    },
    /// Binds one variable in `body`.
    FunType { param: FunParam<'core, &'core Expr<'core>>, body: &'core Expr<'core> },
    /// Binds one variable in `body`.
    FunLit { param: FunParam<'core, &'core Expr<'core>>, body: &'core Expr<'core> },
    FunApp { fun: &'core Expr<'core>, arg: FunArg<&'core Expr<'core>> },
    /// A telescope: the type of each field stands under the binders of all
    /// the fields before it.
    RecordType(&'core Vec<(Symbol<'core>, Expr<'core>)>),
    RecordLit(&'core Vec<(Symbol<'core>, Expr<'core>)>),
    RecordProj(&'core Expr<'core>, Symbol<'core>),
    MatchBool {
        cond: &'core Expr<'core>,
        then_branch: &'core Expr<'core>,
        else_branch: &'core Expr<'core>,
    },
    MatchInt {
        scrut: &'core Expr<'core>,
        cases: &'core Vec<(u32, Expr<'core>)>,
        default: &'core Expr<'core>,
    },
}

/// The mathematical model of a core term: a finite tree with natural numbers
/// for variables and character sequences for names.
pub enum Term {
    Error,
    Lit(Const),
    Prim(Prim),
    LocalVar(nat),
    MetaVar(nat),
    Let { name: Option<Seq<char>>, ty: Box<Term>, init: Box<Term>, body: Box<Term> },
    FunType { plicity: Plicity, name: Option<Seq<char>>, ty: Box<Term>, body: Box<Term> },
    FunLit { plicity: Plicity, name: Option<Seq<char>>, ty: Box<Term>, body: Box<Term> },
    FunApp { fun: Box<Term>, plicity: Plicity, arg: Box<Term> },
    RecordType(Seq<(Seq<char>, Term)>),
    RecordLit(Seq<(Seq<char>, Term)>),
    RecordProj(Box<Term>, Seq<char>),
    MatchBool { cond: Box<Term>, then_branch: Box<Term>, else_branch: Box<Term> },
    MatchInt { scrut: Box<Term>, cases: Seq<(u32, Term)>, default: Box<Term> },
}

impl Term {
    /// Whether the variable that index `var` names outside this term occurs
    /// in it.
    pub open spec fn references(self, var: nat) -> bool
        decreases self,
    {
        match self {
            Term::Error | Term::Lit(_) | Term::Prim(_) | Term::MetaVar(_) => false,
            Term::LocalVar(v) => v == var,
            Term::Let { ty, init, body, .. } => {
                ty.references(var) || init.references(var) || body.references(var + 1)
            },
            Term::FunType { ty, body, .. } | Term::FunLit { ty, body, .. } => {
                ty.references(var) || body.references(var + 1)
            },
            Term::FunApp { fun, arg, .. } => fun.references(var) || arg.references(var),
            Term::RecordType(fields) => exists|i: int|
                0 <= i < fields.len() && (#[trigger] fields[i]).1.references((var + i) as nat),
            Term::RecordLit(fields) => exists|i: int|
                0 <= i < fields.len() && (#[trigger] fields[i]).1.references(var),
            Term::RecordProj(scrut, _) => scrut.references(var),
            Term::MatchBool { cond, then_branch, else_branch } => {
                cond.references(var) || then_branch.references(var) || else_branch.references(var)
            },
            Term::MatchInt { scrut, cases, default } => {
                scrut.references(var) || default.references(var) || exists|i: int|
                    0 <= i < cases.len() && (#[trigger] cases[i]).1.references(var)
            },
        }
    }

    /// The term with `amount` added to every variable whose binder lies
    /// outside it, `min` being the number of binders between the term and
    /// the place where the shift began.
    pub open spec fn shift_from(self, min: nat, amount: nat) -> Term
        decreases self,
    {
        match self {
            Term::Error | Term::Lit(_) | Term::Prim(_) | Term::MetaVar(_) => self,
            Term::LocalVar(v) => if v >= min {
                Term::LocalVar(v + amount)
            } else {
                self
            },
            Term::Let { name, ty, init, body } => Term::Let {
                name,
                ty: Box::new(ty.shift_from(min, amount)),
                init: Box::new(init.shift_from(min, amount)),
                body: Box::new(body.shift_from(min + 1, amount)),
            },
            Term::FunType { plicity, name, ty, body } => Term::FunType {
                plicity,
                name,
                ty: Box::new(ty.shift_from(min, amount)),
                body: Box::new(body.shift_from(min + 1, amount)),
            },
            Term::FunLit { plicity, name, ty, body } => Term::FunLit {
                plicity,
                name,
                ty: Box::new(ty.shift_from(min, amount)),
                body: Box::new(body.shift_from(min + 1, amount)),
            },
            Term::FunApp { fun, plicity, arg } => Term::FunApp {
                fun: Box::new(fun.shift_from(min, amount)),
                plicity,
                arg: Box::new(arg.shift_from(min, amount)),
            },
            Term::RecordType(fields) => Term::RecordType(
                Seq::new(
                    fields.len(),
                    |i: int|
                        if 0 <= i < fields.len() {
                            (fields[i].0, fields[i].1.shift_from((min + i) as nat, amount))
                        } else {
                            (Seq::empty(), Term::Error)
                        },
                ),
            ),
            Term::RecordLit(fields) => Term::RecordLit(
                Seq::new(
                    fields.len(),
                    |i: int|
                        if 0 <= i < fields.len() {
                            (fields[i].0, fields[i].1.shift_from(min, amount))
                        } else {
                            (Seq::empty(), Term::Error)
                        },
                ),
            ),
            Term::RecordProj(scrut, label) => Term::RecordProj(
                Box::new(scrut.shift_from(min, amount)),
                label,
            ),
            Term::MatchBool { cond, then_branch, else_branch } => Term::MatchBool {
                cond: Box::new(cond.shift_from(min, amount)),
                then_branch: Box::new(then_branch.shift_from(min, amount)),
                else_branch: Box::new(else_branch.shift_from(min, amount)),
            },
            Term::MatchInt { scrut, cases, default } => Term::MatchInt {
                scrut: Box::new(scrut.shift_from(min, amount)),
                cases: Seq::new(
                    cases.len(),
                    |i: int|
                        if 0 <= i < cases.len() {
                            (cases[i].0, cases[i].1.shift_from(min, amount))
                        } else {
                            (0u32, Term::Error)
                        },
                ),
                default: Box::new(default.shift_from(min, amount)),
            },
        }
    }

    /// The term with `amount` added to every free variable.
    pub open spec fn shift(self, amount: nat) -> Term {
        self.shift_from(0, amount)
    }

    /// Whether every variable of the term that lies `min` or more binders out
    /// is at most `limit`.
    pub open spec fn vars_below(self, min: nat, limit: nat) -> bool
        decreases self,
    {
        match self {
            Term::Error | Term::Lit(_) | Term::Prim(_) | Term::MetaVar(_) => true,
            Term::LocalVar(v) => v >= min ==> v <= limit,
            Term::Let { ty, init, body, .. } => {
                ty.vars_below(min, limit) && init.vars_below(min, limit) && body.vars_below(
                    min + 1,
                    limit,
                )
            },
            Term::FunType { ty, body, .. } | Term::FunLit { ty, body, .. } => {
                ty.vars_below(min, limit) && body.vars_below(min + 1, limit)
            },
            Term::FunApp { fun, arg, .. } => fun.vars_below(min, limit) && arg.vars_below(
                min,
                limit,
            ),
            Term::RecordType(fields) => forall|i: int|
                0 <= i < fields.len() ==> (#[trigger] fields[i]).1.vars_below(
                    (min + i) as nat,
                    limit,
                ),
            Term::RecordLit(fields) => forall|i: int|
                0 <= i < fields.len() ==> (#[trigger] fields[i]).1.vars_below(min, limit),
            Term::RecordProj(scrut, _) => scrut.vars_below(min, limit),
            Term::MatchBool { cond, then_branch, else_branch } => {
                cond.vars_below(min, limit) && then_branch.vars_below(min, limit)
                    && else_branch.vars_below(min, limit)
            },
            Term::MatchInt { scrut, cases, default } => {
                scrut.vars_below(min, limit) && default.vars_below(min, limit) && forall|i: int|
                    0 <= i < cases.len() ==> (#[trigger] cases[i]).1.vars_below(min, limit)
            },
        }
    }
}

impl<'core> Expr<'core> {
    /// The model of the term.
    pub open spec fn term(self) -> Term
        decreases self,
    {
        match self {
            Expr::Error => Term::Error,
            Expr::Lit(c) => Term::Lit(c),
            Expr::Prim(p) => Term::Prim(p),
            Expr::LocalVar(v) => Term::LocalVar(v.index as nat),
            Expr::MetaVar(v) => Term::MetaVar(v.level as nat),
            Expr::Let { name, ty, init, body } => Term::Let {
                name: name_text(name),
                ty: Box::new(ty.term()),
                init: Box::new(init.term()),
                body: Box::new(body.term()),
            },
            Expr::FunType { param, body } => Term::FunType {
                plicity: param.plicity,
                name: name_text(param.name),
                ty: Box::new(param.ty.term()),
                body: Box::new(body.term()),
            },
            Expr::FunLit { param, body } => Term::FunLit {
                plicity: param.plicity,
                name: name_text(param.name),
                ty: Box::new(param.ty.term()),
                body: Box::new(body.term()),
            },
            Expr::FunApp { fun, arg } => Term::FunApp {
                fun: Box::new(fun.term()),
                plicity: arg.plicity,
                arg: Box::new(arg.expr.term()),
            },
            Expr::RecordType(fields) => Term::RecordType(
                Seq::new(
                    fields@.len(),
                    |i: int|
                        if 0 <= i < fields@.len() {
                            (fields@[i].0@, fields@[i].1.term())
                        } else {
                            (Seq::empty(), Term::Error)
                        },
                ),
            ),
            Expr::RecordLit(fields) => Term::RecordLit(
                Seq::new(
                    fields@.len(),
                    |i: int|
                        if 0 <= i < fields@.len() {
                            (fields@[i].0@, fields@[i].1.term())
                        } else {
                            (Seq::empty(), Term::Error)
                        },
                ),
            ),
            Expr::RecordProj(scrut, label) => Term::RecordProj(Box::new(scrut.term()), label@),
            Expr::MatchBool { cond, then_branch, else_branch } => Term::MatchBool {
                cond: Box::new(cond.term()),
                then_branch: Box::new(then_branch.term()),
                else_branch: Box::new(else_branch.term()),
            },
            Expr::MatchInt { scrut, cases, default } => Term::MatchInt {
                scrut: Box::new(scrut.term()),
                cases: Seq::new(
                    cases@.len(),
                    |i: int|
                        if 0 <= i < cases@.len() {
                            (cases@[i].0, cases@[i].1.term())
                        } else {
                            (0u32, Term::Error)
                        },
                ),
                default: Box::new(default.term()),
            },
        }
    }
}

impl Term {
    /// Whether every variable of the term is bound, `depth` being the number
    /// of variables in scope around it.
    pub open spec fn scoped(self, depth: nat) -> bool
        decreases self,
    {
        match self {
            Term::Error | Term::Lit(_) | Term::Prim(_) | Term::MetaVar(_) => true,
            Term::LocalVar(v) => v < depth,
            Term::Let { ty, init, body, .. } => {
                ty.scoped(depth) && init.scoped(depth) && body.scoped(depth + 1)
            },
            Term::FunType { ty, body, .. } | Term::FunLit { ty, body, .. } => {
                ty.scoped(depth) && body.scoped(depth + 1)
            },
            Term::FunApp { fun, arg, .. } => fun.scoped(depth) && arg.scoped(depth),
            Term::RecordType(fields) => forall|i: int|
                0 <= i < fields.len() ==> (#[trigger] fields[i]).1.scoped((depth + i) as nat),
            Term::RecordLit(fields) => forall|i: int|
                0 <= i < fields.len() ==> (#[trigger] fields[i]).1.scoped(depth),
            Term::RecordProj(scrut, _) => scrut.scoped(depth),
            Term::MatchBool { cond, then_branch, else_branch } => {
                cond.scoped(depth) && then_branch.scoped(depth) && else_branch.scoped(depth)
            },
            Term::MatchInt { scrut, cases, default } => {
                scrut.scoped(depth) && default.scoped(depth) && forall|i: int|
                    0 <= i < cases.len() ==> (#[trigger] cases[i]).1.scoped(depth)
            },
        }
    }

    /// The number of `let`s at the head of the term.
    pub open spec fn let_depth(self) -> nat
        decreases self,
    {
        match self {
            Term::Let { body, .. } => 1 + body.let_depth(),
            _ => 0,
        }
    }
}

/// Beyond every machine word, any depth binds every variable of a term that
/// the machine holds.
pub proof fn lemma_scoped_beyond(e: Expr, depth: nat)
    requires
        depth > usize::MAX,
    ensures
        e@.scoped(depth),
    decreases e,
{
    match e {
        Expr::Error | Expr::Lit(_) | Expr::Prim(_) | Expr::MetaVar(_) | Expr::LocalVar(_) => {},
        Expr::Let { ty, init, body, .. } => {
            lemma_scoped_beyond(*ty, depth);
            lemma_scoped_beyond(*init, depth);
            lemma_scoped_beyond(*body, depth + 1);
        },
        Expr::FunType { param, body } | Expr::FunLit { param, body } => {
            lemma_scoped_beyond(*param.ty, depth);
            lemma_scoped_beyond(*body, depth + 1);
        },
        Expr::FunApp { fun, arg } => {
            lemma_scoped_beyond(*fun, depth);
            lemma_scoped_beyond(*arg.expr, depth);
        },
        Expr::RecordType(fields) => {
            assert forall|i: int| 0 <= i < fields@.len() implies (#[trigger] fields@[i]).1@.scoped(
                (depth + i) as nat,
            ) by {
                lemma_scoped_beyond(fields@[i].1, (depth + i) as nat);
            }
        },
        Expr::RecordLit(fields) => {
            assert forall|i: int| 0 <= i < fields@.len() implies (#[trigger] fields@[i]).1@.scoped(
                depth,
            ) by {
                lemma_scoped_beyond(fields@[i].1, depth);
            }
        },
        Expr::RecordProj(scrut, _) => {
            lemma_scoped_beyond(*scrut, depth);
        },
        Expr::MatchBool { cond, then_branch, else_branch } => {
            lemma_scoped_beyond(*cond, depth);
            lemma_scoped_beyond(*then_branch, depth);
            lemma_scoped_beyond(*else_branch, depth);
        },
        Expr::MatchInt { scrut, cases, default } => {
            lemma_scoped_beyond(*scrut, depth);
            lemma_scoped_beyond(*default, depth);
            assert forall|i: int| 0 <= i < cases@.len() implies (#[trigger] cases@[i]).1@.scoped(
                depth,
            ) by {
                lemma_scoped_beyond(cases@[i].1, depth);
            }
        },
    }
}

impl<'core> Expr<'core> {
    /// Whether every variable of the term is bound where `depth` variables
    /// are in scope around it.
    pub fn is_scoped(&self, depth: EnvLen) -> (r: bool)
        ensures
            r == self@.scoped(depth.len as nat),
        decreases *self, 0nat,
    {
        match *self {
            Expr::LocalVar(v) => v.index < depth.len,
            Expr::Error | Expr::Lit(_) | Expr::Prim(_) | Expr::MetaVar(_) => true,
            Expr::Let { ty, init, body, .. } => {
                ty.is_scoped(depth) && init.is_scoped(depth) && body.is_scoped_under(depth)
            },
            Expr::FunType { param, body } | Expr::FunLit { param, body } => {
                param.ty.is_scoped(depth) && body.is_scoped_under(depth)
            },
            Expr::FunApp { fun, arg } => fun.is_scoped(depth) && arg.expr.is_scoped(depth),
            Expr::RecordType(fields) => {
                let mut i: usize = 0;
                while i < fields.len()
                    invariant
                        i <= fields@.len(),
                        *self is RecordType,
                        self->RecordType_0 == fields,
                        forall|j: int|
                            0 <= j < i ==> (#[trigger] fields@[j]).1@.scoped(
                                (depth.len + j) as nat,
                            ),
                    decreases fields@.len() - i,
                {
                    proof {
                        assert(decreases_to!(*fields => fields[i as int]));
                        assert(self@->RecordType_0[i as int].1 == fields@[i as int].1@);
                    }
                    let bound = match depth.len.checked_add(i) {
                        Some(len) => fields[i].1.is_scoped(EnvLen { len }),
                        None => {
                            proof {
                                lemma_scoped_beyond(fields@[i as int].1, (depth.len + i) as nat);
                            }
                            true
                        },
                    };
                    if !bound {
                        return false;
                    }
                    i += 1;
                }
                proof {
                    assert forall|j: int| 0 <= j < self@->RecordType_0.len() implies (
                    #[trigger] self@->RecordType_0[j]).1.scoped((depth.len + j) as nat) by {
                        assert(fields@[j].1@.scoped((depth.len + j) as nat));
                    }
                }
                true
            },
            Expr::RecordLit(fields) => {
                let mut i: usize = 0;
                while i < fields.len()
                    invariant
                        i <= fields@.len(),
                        *self is RecordLit,
                        self->RecordLit_0 == fields,
                        forall|j: int|
                            0 <= j < i ==> (#[trigger] fields@[j]).1@.scoped(depth.len as nat),
                    decreases fields@.len() - i,
                {
                    proof {
                        assert(decreases_to!(*fields => fields[i as int]));
                        assert(self@->RecordLit_0[i as int].1 == fields@[i as int].1@);
                    }
                    if !fields[i].1.is_scoped(depth) {
                        return false;
                    }
                    i += 1;
                }
                proof {
                    assert forall|j: int| 0 <= j < self@->RecordLit_0.len() implies (
                    #[trigger] self@->RecordLit_0[j]).1.scoped(depth.len as nat) by {
                        assert(fields@[j].1@.scoped(depth.len as nat));
                    }
                }
                true
            },
            Expr::RecordProj(scrut, _) => scrut.is_scoped(depth),
            Expr::MatchBool { cond, then_branch, else_branch } => {
                cond.is_scoped(depth) && then_branch.is_scoped(depth) && else_branch.is_scoped(
                    depth,
                )
            },
            Expr::MatchInt { scrut, cases, default } => {
                if !(scrut.is_scoped(depth) && default.is_scoped(depth)) {
                    return false;
                }
                let mut i: usize = 0;
                while i < cases.len()
                    invariant
                        i <= cases@.len(),
                        *self is MatchInt,
                        self->cases == cases,
                        forall|j: int|
                            0 <= j < i ==> (#[trigger] cases@[j]).1@.scoped(depth.len as nat),
                    decreases cases@.len() - i,
                {
                    proof {
                        assert(decreases_to!(*cases => cases[i as int]));
                        assert(self@->cases[i as int].1 == cases@[i as int].1@);
                    }
                    if !cases[i].1.is_scoped(depth) {
                        return false;
                    }
                    i += 1;
                }
                proof {
                    assert forall|j: int| 0 <= j < self@->cases.len() implies (
                    #[trigger] self@->cases[j]).1.scoped(depth.len as nat) by {
                        assert(cases@[j].1@.scoped(depth.len as nat));
                    }
                }
                true
            },
        }
    }

    /// Whether every variable of the term, which stands under one binder,
    /// is bound where `depth` variables are in scope around the binder.
    fn is_scoped_under(&self, depth: EnvLen) -> (r: bool)
        ensures
            r == self@.scoped((depth.len + 1) as nat),
        decreases *self, 1nat,
    {
        match depth.len.checked_add(1) {
            Some(len) => self.is_scoped(EnvLen { len }),
            None => {
                proof {
                    lemma_scoped_beyond(*self, (depth.len + 1) as nat);
                }
                true
            },
        }
    }
}

impl Term {
    /// Whether two terms are the same but for the names of their bound
    /// variables.
    pub open spec fn alpha_eq(self, other: Term) -> bool
        decreases self,
    {
        match (self, other) {
            (Term::Error, Term::Error) => true,
            (Term::Lit(a), Term::Lit(b)) => a == b,
            (Term::Prim(a), Term::Prim(b)) => a == b,
            (Term::LocalVar(a), Term::LocalVar(b)) => a == b,
            (Term::MetaVar(a), Term::MetaVar(b)) => a == b,
            (
                Term::Let { ty: ty1, init: init1, body: body1, .. },
                Term::Let { ty: ty2, init: init2, body: body2, .. },
            ) => ty1.alpha_eq(*ty2) && init1.alpha_eq(*init2) && body1.alpha_eq(*body2),
            (
                Term::FunType { plicity: p1, ty: ty1, body: body1, .. },
                Term::FunType { plicity: p2, ty: ty2, body: body2, .. },
            ) => p1 == p2 && ty1.alpha_eq(*ty2) && body1.alpha_eq(*body2),
            (
                Term::FunLit { plicity: p1, ty: ty1, body: body1, .. },
                Term::FunLit { plicity: p2, ty: ty2, body: body2, .. },
            ) => p1 == p2 && ty1.alpha_eq(*ty2) && body1.alpha_eq(*body2),
            (
                Term::FunApp { fun: fun1, plicity: p1, arg: arg1 },
                Term::FunApp { fun: fun2, plicity: p2, arg: arg2 },
            ) => p1 == p2 && fun1.alpha_eq(*fun2) && arg1.alpha_eq(*arg2),
            (Term::RecordType(fields1), Term::RecordType(fields2)) => {
                &&& fields1.len() == fields2.len()
                &&& forall|i: int|
                    0 <= i < fields1.len() ==> (#[trigger] fields1[i]).0 == fields2[i].0
                        && fields1[i].1.alpha_eq(fields2[i].1)
            },
            (Term::RecordLit(fields1), Term::RecordLit(fields2)) => {
                &&& fields1.len() == fields2.len()
                &&& forall|i: int|
                    0 <= i < fields1.len() ==> (#[trigger] fields1[i]).0 == fields2[i].0
                        && fields1[i].1.alpha_eq(fields2[i].1)
            },
            (Term::RecordProj(scrut1, label1), Term::RecordProj(scrut2, label2)) => {
                label1 == label2 && scrut1.alpha_eq(*scrut2)
            },
            (
                Term::MatchBool { cond: c1, then_branch: t1, else_branch: e1 },
                Term::MatchBool { cond: c2, then_branch: t2, else_branch: e2 },
            ) => c1.alpha_eq(*c2) && t1.alpha_eq(*t2) && e1.alpha_eq(*e2),
            (
                Term::MatchInt { scrut: s1, cases: cases1, default: d1 },
                Term::MatchInt { scrut: s2, cases: cases2, default: d2 },
            ) => {
                &&& s1.alpha_eq(*s2)
                &&& d1.alpha_eq(*d2)
                &&& cases1.len() == cases2.len()
                &&& forall|i: int|
                    0 <= i < cases1.len() ==> (#[trigger] cases1[i]).0 == cases2[i].0
                        && cases1[i].1.alpha_eq(cases2[i].1)
            },
            _ => false,
        }
    }
}

/// A term is the same as itself.
pub proof fn lemma_alpha_eq_reflexive(t: Term)
    ensures
        t.alpha_eq(t),
    decreases t,
{
    match t {
        Term::Error | Term::Lit(_) | Term::Prim(_) | Term::MetaVar(_) | Term::LocalVar(_) => {},
        Term::Let { ty, init, body, .. } => {
            lemma_alpha_eq_reflexive(*ty);
            lemma_alpha_eq_reflexive(*init);
            lemma_alpha_eq_reflexive(*body);
        },
        Term::FunType { ty, body, .. } | Term::FunLit { ty, body, .. } => {
            lemma_alpha_eq_reflexive(*ty);
            lemma_alpha_eq_reflexive(*body);
        },
        Term::FunApp { fun, arg, .. } => {
            lemma_alpha_eq_reflexive(*fun);
            lemma_alpha_eq_reflexive(*arg);
        },
        Term::RecordType(fields) | Term::RecordLit(fields) => {
            assert forall|i: int| 0 <= i < fields.len() implies (#[trigger] fields[i]).1.alpha_eq(
                fields[i].1,
            ) by {
                lemma_alpha_eq_reflexive(fields[i].1);
            }
        },
        Term::RecordProj(scrut, _) => {
            lemma_alpha_eq_reflexive(*scrut);
        },
        Term::MatchBool { cond, then_branch, else_branch } => {
            lemma_alpha_eq_reflexive(*cond);
            lemma_alpha_eq_reflexive(*then_branch);
            lemma_alpha_eq_reflexive(*else_branch);
        },
        Term::MatchInt { scrut, cases, default } => {
            lemma_alpha_eq_reflexive(*scrut);
            lemma_alpha_eq_reflexive(*default);
            assert forall|i: int| 0 <= i < cases.len() implies (#[trigger] cases[i]).1.alpha_eq(
                cases[i].1,
            ) by {
                lemma_alpha_eq_reflexive(cases[i].1);
            }
        },
    }
}

impl<'core> Expr<'core> {
    /// Whether two terms are the same but for the names of their bound
    /// variables.
    #[verifier::loop_isolation(false)]
    pub fn alpha_eq(&self, other: &Expr) -> (r: bool)
        ensures
            r == self@.alpha_eq(other@),
        decreases *self,
    {
        match (*self, *other) {
            (Expr::Error, Expr::Error) => true,
            (Expr::Lit(a), Expr::Lit(b)) => a == b,
            (Expr::Prim(a), Expr::Prim(b)) => a == b,
            (Expr::LocalVar(a), Expr::LocalVar(b)) => a.index == b.index,
            (Expr::MetaVar(a), Expr::MetaVar(b)) => a.level == b.level,
            (
                Expr::Let { ty: ty1, init: init1, body: body1, .. },
                Expr::Let { ty: ty2, init: init2, body: body2, .. },
            ) => ty1.alpha_eq(ty2) && init1.alpha_eq(init2) && body1.alpha_eq(body2),
            (
                Expr::FunType { param: param1, body: body1 },
                Expr::FunType { param: param2, body: body2 },
            ) => param1.plicity == param2.plicity && param1.ty.alpha_eq(param2.ty)
                && body1.alpha_eq(body2),
            (
                Expr::FunLit { param: param1, body: body1 },
                Expr::FunLit { param: param2, body: body2 },
            ) => param1.plicity == param2.plicity && param1.ty.alpha_eq(param2.ty)
                && body1.alpha_eq(body2),
            (Expr::FunApp { fun: fun1, arg: arg1 }, Expr::FunApp { fun: fun2, arg: arg2 }) => {
                arg1.plicity == arg2.plicity && fun1.alpha_eq(fun2) && arg1.expr.alpha_eq(arg2.expr)
            },
            (Expr::RecordType(fields1), Expr::RecordType(fields2)) => {
                if fields1.len() != fields2.len() {
                    return false;
                }
                let mut i: usize = 0;
                while i < fields1.len()
                    invariant
                        i <= fields1@.len(),
                        forall|j: int|
                            0 <= j < i ==> (#[trigger] fields1@[j]).0@ == fields2@[j].0@
                                && fields1@[j].1@.alpha_eq(fields2@[j].1@),
                    decreases fields1@.len() - i,
                {
                    proof {
                        assert(decreases_to!(*fields1 => fields1[i as int]));
                        assert(self@->RecordType_0[i as int] == (
                            fields1@[i as int].0@,
                            fields1@[i as int].1@,
                        ));
                        assert(other@->RecordType_0[i as int] == (
                            fields2@[i as int].0@,
                            fields2@[i as int].1@,
                        ));
                    }
                    if !(fields1[i].0 == fields2[i].0 && fields1[i].1.alpha_eq(&fields2[i].1)) {
                        return false;
                    }
                    i += 1;
                }
                proof {
                    assert forall|j: int| 0 <= j < self@->RecordType_0.len() implies (
                    #[trigger] self@->RecordType_0[j]).0 == other@->RecordType_0[j].0
                        && self@->RecordType_0[j].1.alpha_eq(other@->RecordType_0[j].1) by {
                        assert(fields1@[j].0@ == fields2@[j].0@);
                    }
                }
                true
            },
            (Expr::RecordLit(fields1), Expr::RecordLit(fields2)) => {
                if fields1.len() != fields2.len() {
                    return false;
                }
                let mut i: usize = 0;
                while i < fields1.len()
                    invariant
                        i <= fields1@.len(),
                        forall|j: int|
                            0 <= j < i ==> (#[trigger] fields1@[j]).0@ == fields2@[j].0@
                                && fields1@[j].1@.alpha_eq(fields2@[j].1@),
                    decreases fields1@.len() - i,
                {
                    proof {
                        assert(decreases_to!(*fields1 => fields1[i as int]));
                        assert(self@->RecordLit_0[i as int] == (
                            fields1@[i as int].0@,
                            fields1@[i as int].1@,
                        ));
                        assert(other@->RecordLit_0[i as int] == (
                            fields2@[i as int].0@,
                            fields2@[i as int].1@,
                        ));
                    }
                    if !(fields1[i].0 == fields2[i].0 && fields1[i].1.alpha_eq(&fields2[i].1)) {
                        return false;
                    }
                    i += 1;
                }
                proof {
                    assert forall|j: int| 0 <= j < self@->RecordLit_0.len() implies (
                    #[trigger] self@->RecordLit_0[j]).0 == other@->RecordLit_0[j].0
                        && self@->RecordLit_0[j].1.alpha_eq(other@->RecordLit_0[j].1) by {
                        assert(fields1@[j].0@ == fields2@[j].0@);
                    }
                }
                true
            },
            (Expr::RecordProj(scrut1, label1), Expr::RecordProj(scrut2, label2)) => {
                label1 == label2 && scrut1.alpha_eq(scrut2)
            },
            (
                Expr::MatchBool { cond: c1, then_branch: t1, else_branch: e1 },
                Expr::MatchBool { cond: c2, then_branch: t2, else_branch: e2 },
            ) => c1.alpha_eq(c2) && t1.alpha_eq(t2) && e1.alpha_eq(e2),
            (
                Expr::MatchInt { scrut: s1, cases: cases1, default: d1 },
                Expr::MatchInt { scrut: s2, cases: cases2, default: d2 },
            ) => {
                if !(s1.alpha_eq(s2) && d1.alpha_eq(d2)) {
                    return false;
                }
                if cases1.len() != cases2.len() {
                    return false;
                }
                let mut i: usize = 0;
                while i < cases1.len()
                    invariant
                        i <= cases1@.len(),
                        forall|j: int|
                            0 <= j < i ==> (#[trigger] cases1@[j]).0 == cases2@[j].0
                                && cases1@[j].1@.alpha_eq(cases2@[j].1@),
                    decreases cases1@.len() - i,
                {
                    proof {
                        assert(decreases_to!(*cases1 => cases1[i as int]));
                        assert(self@->cases[i as int] == (cases1@[i as int].0, cases1@[i as int].1@));
                        assert(other@->cases[i as int] == (
                            cases2@[i as int].0,
                            cases2@[i as int].1@,
                        ));
                    }
                    if !(cases1[i].0 == cases2[i].0 && cases1[i].1.alpha_eq(&cases2[i].1)) {
                        return false;
                    }
                    i += 1;
                }
                proof {
                    assert forall|j: int| 0 <= j < self@->cases.len() implies (
                    #[trigger] self@->cases[j]).0 == other@->cases[j].0
                        && self@->cases[j].1.alpha_eq(other@->cases[j].1) by {
                        assert(cases1@[j].0 == cases2@[j].0);
                    }
                }
                true
            },
            _ => false,
        }
    }
}

/// A variable too large for a machine word occurs in no term that the
/// machine holds.
pub proof fn lemma_references_bound(e: Expr, var: nat)
    requires
        var > usize::MAX,
    ensures
        !e@.references(var),
    decreases e,
{
    match e {
        Expr::Error | Expr::Lit(_) | Expr::Prim(_) | Expr::MetaVar(_) | Expr::LocalVar(_) => {},
        Expr::Let { ty, init, body, .. } => {
            lemma_references_bound(*ty, var);
            lemma_references_bound(*init, var);
            lemma_references_bound(*body, var + 1);
        },
        Expr::FunType { param, body } | Expr::FunLit { param, body } => {
            lemma_references_bound(*param.ty, var);
            lemma_references_bound(*body, var + 1);
        },
        Expr::FunApp { fun, arg } => {
            lemma_references_bound(*fun, var);
            lemma_references_bound(*arg.expr, var);
        },
        Expr::RecordType(fields) => {
            assert forall|i: int| 0 <= i < fields@.len() implies !(#[trigger] fields@[i]).1@.references(
                (var + i) as nat,
            ) by {
                lemma_references_bound(fields@[i].1, (var + i) as nat);
            }
        },
        Expr::RecordLit(fields) => {
            assert forall|i: int| 0 <= i < fields@.len() implies !(#[trigger] fields@[i]).1@.references(
                var,
            ) by {
                lemma_references_bound(fields@[i].1, var);
            }
        },
        Expr::RecordProj(scrut, _) => {
            lemma_references_bound(*scrut, var);
        },
        Expr::MatchBool { cond, then_branch, else_branch } => {
            lemma_references_bound(*cond, var);
            lemma_references_bound(*then_branch, var);
            lemma_references_bound(*else_branch, var);
        },
        Expr::MatchInt { scrut, cases, default } => {
            lemma_references_bound(*scrut, var);
            lemma_references_bound(*default, var);
            assert forall|i: int| 0 <= i < cases@.len() implies !(#[trigger] cases@[i]).1@.references(
                var,
            ) by {
                lemma_references_bound(cases@[i].1, var);
            }
        },
    }
}

impl<'core> Expr<'core> {
    /// Whether the variable that `var` names outside this term occurs in it.
    pub fn references_local(&self, var: RelativeVar) -> (r: bool)
        ensures
            r == self@.references(var.index as nat),
        decreases *self, 0nat,
    {
        match *self {
            Expr::LocalVar(v) => v.index == var.index,
            Expr::Error | Expr::Lit(_) | Expr::Prim(_) | Expr::MetaVar(_) => false,
            Expr::Let { ty, init, body, .. } => {
                ty.references_local(var) || init.references_local(var) || body.references_under(
                    var,
                )
            },
            Expr::FunType { param, body } | Expr::FunLit { param, body } => {
                param.ty.references_local(var) || body.references_under(var)
            },
            Expr::FunApp { fun, arg } => {
                fun.references_local(var) || arg.expr.references_local(var)
            },
            Expr::RecordType(fields) => {
                let mut i: usize = 0;
                while i < fields.len()
                    invariant
                        i <= fields@.len(),
                        *self is RecordType,
                        self->RecordType_0 == fields,
                        forall|j: int|
                            0 <= j < i ==> !(#[trigger] fields@[j]).1@.references(
                                (var.index + j) as nat,
                            ),
                    decreases fields@.len() - i,
                {
                    proof {
                        assert(decreases_to!(*fields => fields[i as int]));
                    }
                    let found = match var.index.checked_add(i) {
                        Some(index) => fields[i].1.references_local(RelativeVar { index }),
                        None => {
                            proof {
                                lemma_references_bound(fields@[i as int].1, (var.index + i) as nat);
                            }
                            false
                        },
                    };
                    if found {
                        assert(self@->RecordType_0[i as int].1 == fields@[i as int].1@);
                        return true;
                    }
                    i += 1;
                }
                false
            },
            Expr::RecordLit(fields) => {
                let mut i: usize = 0;
                while i < fields.len()
                    invariant
                        i <= fields@.len(),
                        *self is RecordLit,
                        self->RecordLit_0 == fields,
                        forall|j: int|
                            0 <= j < i ==> !(#[trigger] fields@[j]).1@.references(
                                var.index as nat,
                            ),
                    decreases fields@.len() - i,
                {
                    proof {
                        assert(decreases_to!(*fields => fields[i as int]));
                    }
                    if fields[i].1.references_local(var) {
                        assert(self@->RecordLit_0[i as int].1 == fields@[i as int].1@);
                        return true;
                    }
                    i += 1;
                }
                false
            },
            Expr::RecordProj(scrut, _) => scrut.references_local(var),
            Expr::MatchBool { cond, then_branch, else_branch } => {
                cond.references_local(var) || then_branch.references_local(var)
                    || else_branch.references_local(var)
            },
            Expr::MatchInt { scrut, cases, default } => {
                if scrut.references_local(var) || default.references_local(var) {
                    return true;
                }
                let mut i: usize = 0;
                while i < cases.len()
                    invariant
                        i <= cases@.len(),
                        *self is MatchInt,
                        self->cases == cases,
                        forall|j: int|
                            0 <= j < i ==> !(#[trigger] cases@[j]).1@.references(var.index as nat),
                    decreases cases@.len() - i,
                {
                    proof {
                        assert(decreases_to!(*cases => cases[i as int]));
                    }
                    if cases[i].1.references_local(var) {
                        assert(self@->cases[i as int].1 == cases@[i as int].1@);
                        return true;
                    }
                    i += 1;
                }
                false
            },
        }
    }

    /// Whether the variable that `var` names outside a binder occurs in this
    /// term, which stands under that binder.
    fn references_under(&self, var: RelativeVar) -> (r: bool)
        ensures
            r == self@.references((var.index + 1) as nat),
        decreases *self, 1nat,
    {
        match var.checked_succ() {
            Some(inner) => self.references_local(inner),
            None => {
                proof {
                    lemma_references_bound(*self, (var.index + 1) as nat);
                }
                false
            },
        }
    }
}

/// Shifting by nothing changes nothing.
pub proof fn lemma_shift_zero(t: Term, min: nat)
    ensures
        t.shift_from(min, 0) == t,
    decreases t,
{
    match t {
        Term::Error | Term::Lit(_) | Term::Prim(_) | Term::MetaVar(_) | Term::LocalVar(_) => {},
        Term::Let { ty, init, body, .. } => {
            lemma_shift_zero(*ty, min);
            lemma_shift_zero(*init, min);
            lemma_shift_zero(*body, min + 1);
        },
        Term::FunType { ty, body, .. } | Term::FunLit { ty, body, .. } => {
            lemma_shift_zero(*ty, min);
            lemma_shift_zero(*body, min + 1);
        },
        Term::FunApp { fun, arg, .. } => {
            lemma_shift_zero(*fun, min);
            lemma_shift_zero(*arg, min);
        },
        Term::RecordType(fields) => {
            assert forall|i: int| 0 <= i < fields.len() implies (#[trigger] fields[i]).1.shift_from(
                (min + i) as nat,
                0,
            ) == fields[i].1 by {
                lemma_shift_zero(fields[i].1, (min + i) as nat);
            }
            assert(t.shift_from(min, 0)->RecordType_0 =~= fields);
        },
        Term::RecordLit(fields) => {
            assert forall|i: int| 0 <= i < fields.len() implies (#[trigger] fields[i]).1.shift_from(
                min,
                0,
            ) == fields[i].1 by {
                lemma_shift_zero(fields[i].1, min);
            }
            assert(t.shift_from(min, 0)->RecordLit_0 =~= fields);
        },
        Term::RecordProj(scrut, _) => {
            lemma_shift_zero(*scrut, min);
        },
        Term::MatchBool { cond, then_branch, else_branch } => {
            lemma_shift_zero(*cond, min);
            lemma_shift_zero(*then_branch, min);
            lemma_shift_zero(*else_branch, min);
        },
        Term::MatchInt { scrut, cases, default } => {
            lemma_shift_zero(*scrut, min);
            lemma_shift_zero(*default, min);
            assert forall|i: int| 0 <= i < cases.len() implies (#[trigger] cases[i]).1.shift_from(
                min,
                0,
            ) == cases[i].1 by {
                lemma_shift_zero(cases[i].1, min);
            }
            assert(t.shift_from(min, 0)->cases =~= cases);
        },
    }
}

/// A shift that begins beyond every machine word changes no term that the
/// machine holds.
pub proof fn lemma_shift_beyond(e: Expr, min: nat, amount: nat)
    requires
        min > usize::MAX,
    ensures
        e@.shift_from(min, amount) == e@,
    decreases e,
{
    match e {
        Expr::Error | Expr::Lit(_) | Expr::Prim(_) | Expr::MetaVar(_) | Expr::LocalVar(_) => {},
        Expr::Let { ty, init, body, .. } => {
            lemma_shift_beyond(*ty, min, amount);
            lemma_shift_beyond(*init, min, amount);
            lemma_shift_beyond(*body, min + 1, amount);
        },
        Expr::FunType { param, body } | Expr::FunLit { param, body } => {
            lemma_shift_beyond(*param.ty, min, amount);
            lemma_shift_beyond(*body, min + 1, amount);
        },
        Expr::FunApp { fun, arg } => {
            lemma_shift_beyond(*fun, min, amount);
            lemma_shift_beyond(*arg.expr, min, amount);
        },
        Expr::RecordType(fields) => {
            assert forall|i: int| 0 <= i < fields@.len() implies (#[trigger] fields@[i]).1@.shift_from(
                (min + i) as nat,
                amount,
            ) == fields@[i].1@ by {
                lemma_shift_beyond(fields@[i].1, (min + i) as nat, amount);
            }
            assert(e@.shift_from(min, amount)->RecordType_0 =~= e@->RecordType_0);
        },
        Expr::RecordLit(fields) => {
            assert forall|i: int| 0 <= i < fields@.len() implies (#[trigger] fields@[i]).1@.shift_from(
                min,
                amount,
            ) == fields@[i].1@ by {
                lemma_shift_beyond(fields@[i].1, min, amount);
            }
            assert(e@.shift_from(min, amount)->RecordLit_0 =~= e@->RecordLit_0);
        },
        Expr::RecordProj(scrut, _) => {
            lemma_shift_beyond(*scrut, min, amount);
        },
        Expr::MatchBool { cond, then_branch, else_branch } => {
            lemma_shift_beyond(*cond, min, amount);
            lemma_shift_beyond(*then_branch, min, amount);
            lemma_shift_beyond(*else_branch, min, amount);
        },
        Expr::MatchInt { scrut, cases, default } => {
            lemma_shift_beyond(*scrut, min, amount);
            lemma_shift_beyond(*default, min, amount);
            assert forall|i: int| 0 <= i < cases@.len() implies (#[trigger] cases@[i]).1@.shift_from(
                min,
                amount,
            ) == cases@[i].1@ by {
                lemma_shift_beyond(cases@[i].1, min, amount);
            }
            assert(e@.shift_from(min, amount)->cases =~= e@->cases);
        },
    }
}

impl<'core> Expr<'core> {
    /// Whether `amount` can be added to every free variable of the term
    /// without leaving the machine word.
    pub open spec fn can_shift(self, amount: nat) -> bool {
        amount == 0 || (amount <= usize::MAX && self@.vars_below(
            0,
            (usize::MAX - amount) as nat,
        ))
    }

    /// The term with `amount` added to every free variable: the same term
    /// read under `amount` more binders.
    ///
    /// A shift by nothing hands back the term itself, so that what was
    /// shared stays shared.
    pub fn shift(&self, bump: &'core bumpalo::Bump, amount: EnvLen) -> (r: Self)
        requires
            self.can_shift(amount.len as nat),
        ensures
            r@ == self@.shift(amount.len as nat),
            amount.len == 0 ==> r == *self,
    {
        if amount.len == 0 {
            proof {
                lemma_shift_zero(self@, 0);
            }
            return *self;
        }
        self.shift_inner(bump, 0, amount.len)
    }

    fn shift_inner(&self, bump: &'core bumpalo::Bump, min: usize, amount: usize) -> (r: Self)
        requires
            self@.vars_below(min as nat, (usize::MAX - amount) as nat),
        ensures
            r@ == self@.shift_from(min as nat, amount as nat),
        decreases *self, 0nat,
    {
        match *self {
            Expr::LocalVar(var) => {
                if var.index >= min {
                    Expr::LocalVar(RelativeVar { index: var.index + amount })
                } else {
                    *self
                }
            },
            Expr::Error | Expr::Lit(_) | Expr::Prim(_) | Expr::MetaVar(_) => *self,
            Expr::Let { name, ty, init, body } => {
                let ty = arena_alloc(bump, ty.shift_inner(bump, min, amount));
                let init = arena_alloc(bump, init.shift_inner(bump, min, amount));
                let body = Self::shift_under(body, bump, min, amount);
                Expr::Let { name, ty, init, body }
            },
            Expr::FunLit { param, body } => {
                let ty = arena_alloc(bump, param.ty.shift_inner(bump, min, amount));
                let body = Self::shift_under(body, bump, min, amount);
                Expr::FunLit { param: FunParam::new(param.plicity, param.name, ty), body }
            },
            Expr::FunType { param, body } => {
                let ty = arena_alloc(bump, param.ty.shift_inner(bump, min, amount));
                let body = Self::shift_under(body, bump, min, amount);
                Expr::FunType { param: FunParam::new(param.plicity, param.name, ty), body }
            },
            Expr::FunApp { fun, arg } => {
                let fun = arena_alloc(bump, fun.shift_inner(bump, min, amount));
                let arg_expr = arena_alloc(bump, arg.expr.shift_inner(bump, min, amount));
                Expr::FunApp { fun, arg: FunArg::new(arg.plicity, arg_expr) }
            },
            Expr::RecordType(fields) => {
                let mut shifted: Vec<(Symbol<'core>, Expr<'core>)> = Vec::new();
                let mut i: usize = 0;
                while i < fields.len()
                    invariant
                        i <= fields@.len(),
                        shifted@.len() == i,
                        *self is RecordType,
                        self->RecordType_0 == fields,
                        self@.vars_below(min as nat, (usize::MAX - amount) as nat),
                        forall|j: int|
                            0 <= j < i ==> (#[trigger] shifted@[j]).0 == fields@[j].0
                                && shifted@[j].1@ == fields@[j].1@.shift_from(
                                (min + j) as nat,
                                amount as nat,
                            ),
                    decreases fields@.len() - i,
                {
                    proof {
                        assert(decreases_to!(*fields => fields[i as int]));
                        assert(self@->RecordType_0[i as int].1 == fields@[i as int].1@);
                    }
                    let (label, field) = fields[i];
                    let field = match min.checked_add(i) {
                        Some(inner) => field.shift_inner(bump, inner, amount),
                        None => {
                            proof {
                                lemma_shift_beyond(field, (min + i) as nat, amount as nat);
                            }
                            field
                        },
                    };
                    shifted.push((label, field));
                    i += 1;
                }
                let r = Expr::RecordType(arena_alloc(bump, shifted));
                assert(r@->RecordType_0 =~= self@.shift_from(
                    min as nat,
                    amount as nat,
                )->RecordType_0);
                r
            },
            Expr::RecordLit(fields) => {
                let mut shifted: Vec<(Symbol<'core>, Expr<'core>)> = Vec::new();
                let mut i: usize = 0;
                while i < fields.len()
                    invariant
                        i <= fields@.len(),
                        shifted@.len() == i,
                        *self is RecordLit,
                        self->RecordLit_0 == fields,
                        self@.vars_below(min as nat, (usize::MAX - amount) as nat),
                        forall|j: int|
                            0 <= j < i ==> (#[trigger] shifted@[j]).0 == fields@[j].0
                                && shifted@[j].1@ == fields@[j].1@.shift_from(
                                min as nat,
                                amount as nat,
                            ),
                    decreases fields@.len() - i,
                {
                    proof {
                        assert(decreases_to!(*fields => fields[i as int]));
                        assert(self@->RecordLit_0[i as int].1 == fields@[i as int].1@);
                    }
                    let (label, field) = fields[i];
                    shifted.push((label, field.shift_inner(bump, min, amount)));
                    i += 1;
                }
                let r = Expr::RecordLit(arena_alloc(bump, shifted));
                assert(r@->RecordLit_0 =~= self@.shift_from(
                    min as nat,
                    amount as nat,
                )->RecordLit_0);
                r
            },
            Expr::RecordProj(scrut, label) => {
                Expr::RecordProj(arena_alloc(bump, scrut.shift_inner(bump, min, amount)), label)
            },
            Expr::MatchBool { cond, then_branch, else_branch } => {
                let cond = arena_alloc(bump, cond.shift_inner(bump, min, amount));
                let then_branch = arena_alloc(bump, then_branch.shift_inner(bump, min, amount));
                let else_branch = arena_alloc(bump, else_branch.shift_inner(bump, min, amount));
                Expr::MatchBool { cond, then_branch, else_branch }
            },
            Expr::MatchInt { scrut, cases, default } => {
                let scrut = arena_alloc(bump, scrut.shift_inner(bump, min, amount));
                let default = arena_alloc(bump, default.shift_inner(bump, min, amount));
                let mut shifted: Vec<(u32, Expr<'core>)> = Vec::new();
                let mut i: usize = 0;
                while i < cases.len()
                    invariant
                        i <= cases@.len(),
                        shifted@.len() == i,
                        *self is MatchInt,
                        self->cases == cases,
                        self@.vars_below(min as nat, (usize::MAX - amount) as nat),
                        forall|j: int|
                            0 <= j < i ==> (#[trigger] shifted@[j]).0 == cases@[j].0
                                && shifted@[j].1@ == cases@[j].1@.shift_from(
                                min as nat,
                                amount as nat,
                            ),
                    decreases cases@.len() - i,
                {
                    proof {
                        assert(decreases_to!(*cases => cases[i as int]));
                        assert(self@->cases[i as int].1 == cases@[i as int].1@);
                    }
                    let (key, rhs) = cases[i];
                    shifted.push((key, rhs.shift_inner(bump, min, amount)));
                    i += 1;
                }
                let r = Expr::MatchInt { scrut, cases: arena_alloc(bump, shifted), default };
                assert(r@->cases =~= self@.shift_from(min as nat, amount as nat)->cases);
                r
            },
        }
    }

    /// Shifts a term that stands under one binder more than `min` counts.
    fn shift_under(
        body: &'core Expr<'core>,
        bump: &'core bumpalo::Bump,
        min: usize,
        amount: usize,
    ) -> (r: &'core Expr<'core>)
        requires
            body@.vars_below((min + 1) as nat, (usize::MAX - amount) as nat),
        ensures
            r@ == body@.shift_from((min + 1) as nat, amount as nat),
        decreases *body, 1nat,
    {
        match min.checked_add(1) {
            Some(inner) => arena_alloc(bump, body.shift_inner(bump, inner, amount)),
            None => {
                proof {
                    lemma_shift_beyond(*body, (min + 1) as nat, amount as nat);
                }
                body
            },
        }
    }
}

/// Beyond every machine word, no variable of a term that the machine holds
/// is left to exceed a limit.
pub proof fn lemma_vars_below_beyond(e: Expr, min: nat, limit: nat)
    requires
        min > usize::MAX,
    ensures
        e@.vars_below(min, limit),
    decreases e,
{
    match e {
        Expr::Error | Expr::Lit(_) | Expr::Prim(_) | Expr::MetaVar(_) | Expr::LocalVar(_) => {},
        Expr::Let { ty, init, body, .. } => {
            lemma_vars_below_beyond(*ty, min, limit);
            lemma_vars_below_beyond(*init, min, limit);
            lemma_vars_below_beyond(*body, min + 1, limit);
        },
        Expr::FunType { param, body } | Expr::FunLit { param, body } => {
            lemma_vars_below_beyond(*param.ty, min, limit);
            lemma_vars_below_beyond(*body, min + 1, limit);
        },
        Expr::FunApp { fun, arg } => {
            lemma_vars_below_beyond(*fun, min, limit);
            lemma_vars_below_beyond(*arg.expr, min, limit);
        },
        Expr::RecordType(fields) => {
            assert forall|i: int| 0 <= i < fields@.len() implies (#[trigger] fields@[i]).1@.vars_below(
                (min + i) as nat,
                limit,
            ) by {
                lemma_vars_below_beyond(fields@[i].1, (min + i) as nat, limit);
            }
        },
        Expr::RecordLit(fields) => {
            assert forall|i: int| 0 <= i < fields@.len() implies (#[trigger] fields@[i]).1@.vars_below(
                min,
                limit,
            ) by {
                lemma_vars_below_beyond(fields@[i].1, min, limit);
            }
        },
        Expr::RecordProj(scrut, _) => {
            lemma_vars_below_beyond(*scrut, min, limit);
        },
        Expr::MatchBool { cond, then_branch, else_branch } => {
            lemma_vars_below_beyond(*cond, min, limit);
            lemma_vars_below_beyond(*then_branch, min, limit);
            lemma_vars_below_beyond(*else_branch, min, limit);
        },
        Expr::MatchInt { scrut, cases, default } => {
            lemma_vars_below_beyond(*scrut, min, limit);
            lemma_vars_below_beyond(*default, min, limit);
            assert forall|i: int| 0 <= i < cases@.len() implies (#[trigger] cases@[i]).1@.vars_below(
                min,
                limit,
            ) by {
                lemma_vars_below_beyond(cases@[i].1, min, limit);
            }
        },
    }
}

impl<'core> Expr<'core> {
    /// Whether every variable of the term that lies `min` or more binders
    /// out is at most `limit`.
    #[verifier::loop_isolation(false)]
    pub fn vars_fit(&self, min: usize, limit: usize) -> (r: bool)
        ensures
            r == self@.vars_below(min as nat, limit as nat),
        decreases *self, 0nat,
    {
        match *self {
            Expr::LocalVar(v) => v.index < min || v.index <= limit,
            Expr::Error | Expr::Lit(_) | Expr::Prim(_) | Expr::MetaVar(_) => true,
            Expr::Let { ty, init, body, .. } => {
                ty.vars_fit(min, limit) && init.vars_fit(min, limit) && body.vars_fit_under(
                    min,
                    limit,
                )
            },
            Expr::FunType { param, body } | Expr::FunLit { param, body } => {
                param.ty.vars_fit(min, limit) && body.vars_fit_under(min, limit)
            },
            Expr::FunApp { fun, arg } => fun.vars_fit(min, limit) && arg.expr.vars_fit(min, limit),
            Expr::RecordType(fields) => {
                let mut i: usize = 0;
                while i < fields.len()
                    invariant
                        i <= fields@.len(),
                        forall|j: int|
                            0 <= j < i ==> (#[trigger] fields@[j]).1@.vars_below(
                                (min + j) as nat,
                                limit as nat,
                            ),
                    decreases fields@.len() - i,
                {
                    proof {
                        assert(decreases_to!(*fields => fields[i as int]));
                        assert(self@->RecordType_0[i as int].1 == fields@[i as int].1@);
                    }
                    let fits = match min.checked_add(i) {
                        Some(inner) => fields[i].1.vars_fit(inner, limit),
                        None => {
                            proof {
                                lemma_vars_below_beyond(
                                    fields@[i as int].1,
                                    (min + i) as nat,
                                    limit as nat,
                                );
                            }
                            true
                        },
                    };
                    if !fits {
                        return false;
                    }
                    i += 1;
                }
                proof {
                    assert forall|j: int| 0 <= j < self@->RecordType_0.len() implies (
                    #[trigger] self@->RecordType_0[j]).1.vars_below(
                        (min + j) as nat,
                        limit as nat,
                    ) by {
                        assert(fields@[j].1@.vars_below((min + j) as nat, limit as nat));
                    }
                }
                true
            },
            Expr::RecordLit(fields) => {
                let mut i: usize = 0;
                while i < fields.len()
                    invariant
                        i <= fields@.len(),
                        forall|j: int|
                            0 <= j < i ==> (#[trigger] fields@[j]).1@.vars_below(
                                min as nat,
                                limit as nat,
                            ),
                    decreases fields@.len() - i,
                {
                    proof {
                        assert(decreases_to!(*fields => fields[i as int]));
                        assert(self@->RecordLit_0[i as int].1 == fields@[i as int].1@);
                    }
                    if !fields[i].1.vars_fit(min, limit) {
                        return false;
                    }
                    i += 1;
                }
                proof {
                    assert forall|j: int| 0 <= j < self@->RecordLit_0.len() implies (
                    #[trigger] self@->RecordLit_0[j]).1.vars_below(min as nat, limit as nat) by {
                        assert(fields@[j].1@.vars_below(min as nat, limit as nat));
                    }
                }
                true
            },
            Expr::RecordProj(scrut, _) => scrut.vars_fit(min, limit),
            Expr::MatchBool { cond, then_branch, else_branch } => {
                cond.vars_fit(min, limit) && then_branch.vars_fit(min, limit)
                    && else_branch.vars_fit(min, limit)
            },
            Expr::MatchInt { scrut, cases, default } => {
                if !(scrut.vars_fit(min, limit) && default.vars_fit(min, limit)) {
                    return false;
                }
                let mut i: usize = 0;
                while i < cases.len()
                    invariant
                        i <= cases@.len(),
                        forall|j: int|
                            0 <= j < i ==> (#[trigger] cases@[j]).1@.vars_below(
                                min as nat,
                                limit as nat,
                            ),
                    decreases cases@.len() - i,
                {
                    proof {
                        assert(decreases_to!(*cases => cases[i as int]));
                        assert(self@->cases[i as int].1 == cases@[i as int].1@);
                    }
                    if !cases[i].1.vars_fit(min, limit) {
                        return false;
                    }
                    i += 1;
                }
                proof {
                    assert forall|j: int| 0 <= j < self@->cases.len() implies (
                    #[trigger] self@->cases[j]).1.vars_below(min as nat, limit as nat) by {
                        assert(cases@[j].1@.vars_below(min as nat, limit as nat));
                    }
                }
                true
            },
        }
    }

    /// [`Expr::vars_fit`] for a term that stands under one binder.
    fn vars_fit_under(&self, min: usize, limit: usize) -> (r: bool)
        ensures
            r == self@.vars_below((min + 1) as nat, limit as nat),
        decreases *self, 1nat,
    {
        match min.checked_add(1) {
            Some(inner) => self.vars_fit(inner, limit),
            None => {
                proof {
                    lemma_vars_below_beyond(*self, (min + 1) as nat, limit as nat);
                }
                true
            },
        }
    }

    /// The term with `amount` added to every free variable; `None` where a
    /// variable would leave the machine word.
    pub fn checked_shift(&self, bump: &'core bumpalo::Bump, amount: EnvLen) -> (r: Option<Self>)
        ensures
            self.can_shift(amount.len as nat) ==> r is Some && r->0@ == self@.shift(
                amount.len as nat,
            ),
            !self.can_shift(amount.len as nat) ==> r is None,
    {
        if amount.len == 0 || self.vars_fit(0, usize::MAX - amount.len) {
            Some(self.shift(bump, amount))
        } else {
            None
        }
    }
}

/// The model of a list of bindings: for each its name, its type and its
/// initialiser.
pub open spec fn bindings_model(bindings: Seq<(Option<Symbol>, Expr, Expr)>) -> Seq<
    (Option<Seq<char>>, Term, Term),
> {
    Seq::new(bindings.len(), |i: int| (name_text(bindings[i].0), bindings[i].1@, bindings[i].2@))
}

/// `body` under the bindings, the first of them outermost.
pub open spec fn lets_term(bindings: Seq<(Option<Seq<char>>, Term, Term)>, body: Term) -> Term
    decreases bindings.len(),
{
    if bindings.len() == 0 {
        body
    } else {
        Term::Let {
            name: bindings[0].0,
            ty: Box::new(bindings[0].1),
            init: Box::new(bindings[0].2),
            body: Box::new(lets_term(bindings.drop_first(), body)),
        }
    }
}

impl<'core> Expr<'core> {
    /// Wraps `body` in one `Let` for each binding, the first binding
    /// outermost.
    pub fn lets(
        bump: &'core bumpalo::Bump,
        bindings: &[(Option<Symbol<'core>>, Expr<'core>, Expr<'core>)],
        body: Self,
    ) -> (r: Self)
        ensures
            r@ == lets_term(bindings_model(bindings@), body@),
    {
        let ghost all = bindings_model(bindings@);
        let mut result = body;
        let mut i: usize = bindings.len();
        proof {
            assert(all.subrange(i as int, all.len() as int) =~= Seq::empty());
        }
        while i > 0
            invariant
                i <= bindings@.len(),
                all == bindings_model(bindings@),
                result@ == lets_term(all.subrange(i as int, all.len() as int), body@),
            decreases i,
        {
            i -= 1;
            let (name, ty, init) = bindings[i];
            proof {
                let rest = all.subrange(i as int, all.len() as int);
                assert(rest.drop_first() =~= all.subrange(i + 1, all.len() as int));
                assert(rest[0] == all[i as int]);
            }
            let ty = arena_alloc(bump, ty);
            let init = arena_alloc(bump, init);
            let inner = arena_alloc(bump, result);
            result = Expr::Let { name, ty, init, body: inner };
        }
        proof {
            assert(all.subrange(0, all.len() as int) =~= all);
        }
        result
    }
}

/// The list literal of the items `items`, of type `ty`: the list primitive
/// applied to the type, implicitly, and then to each item.
pub open spec fn list_term(ty: Term, items: Seq<Term>) -> Term
    decreases items.len(),
{
    if items.len() == 0 {
        Term::FunApp {
            fun: Box::new(Term::Prim(Prim::ListLit)),
            plicity: Plicity::Implicit,
            arg: Box::new(ty),
        }
    } else {
        Term::FunApp {
            fun: Box::new(list_term(ty, items.drop_last())),
            plicity: Plicity::Explicit,
            arg: Box::new(items.last()),
        }
    }
}

impl Term {
    /// Whether the term is a list literal.
    pub open spec fn is_list(self) -> bool
        decreases self,
    {
        match self {
            Term::FunApp { fun, plicity, .. } => match plicity {
                Plicity::Implicit => *fun == Term::Prim(Prim::ListLit),
                Plicity::Explicit => fun.is_list(),
            },
            _ => false,
        }
    }
}

/// The list literal of given items is a list literal.
pub proof fn lemma_list_term_is_list(ty: Term, items: Seq<Term>)
    ensures
        list_term(ty, items).is_list(),
    decreases items.len(),
{
    if items.len() > 0 {
        lemma_list_term_is_list(ty, items.drop_last());
    }
}

impl<'core> Expr<'core> {
    /// Whether the term is a list literal.
    pub fn is_list(&self) -> (r: bool)
        ensures
            r == self@.is_list(),
        decreases *self,
    {
        match *self {
            Expr::FunApp { fun, arg } => match arg.plicity {
                Plicity::Implicit => match *fun {
                    Expr::Prim(Prim::ListLit) => true,
                    _ => false,
                },
                Plicity::Explicit => fun.is_list(),
            },
            _ => false,
        }
    }

    /// The list literal of the items `items`, of type `ty`.
    pub fn list(bump: &'core bumpalo::Bump, ty: Self, items: &Vec<Self>) -> (r: Self)
        ensures
            r@ == list_term(ty@, Seq::new(items@.len(), |i: int| items@[i]@)),
    {
        let ghost all = Seq::new(items@.len(), |i: int| items@[i]@);
        let mut list = Expr::FunApp {
            fun: arena_alloc(bump, Expr::Prim(Prim::ListLit)),
            arg: FunArg::implicit(arena_alloc(bump, ty)),
        };
        let mut i: usize = 0;
        assert(all.take(0) =~= Seq::empty());
        assert(Expr::Prim(Prim::ListLit)@ == Term::Prim(Prim::ListLit));
        while i < items.len()
            invariant
                i <= items@.len(),
                all == Seq::new(items@.len(), |i: int| items@[i]@),
                list@ == list_term(ty@, all.take(i as int)),
            decreases items@.len() - i,
        {
            assert(all.take(i + 1).drop_last() =~= all.take(i as int));
            assert(all.take(i + 1).last() == items@[i as int]@);
            list = Expr::FunApp {
                fun: arena_alloc(bump, list),
                arg: FunArg::explicit(arena_alloc(bump, items[i])),
            };
            i += 1;
        }
        assert(all.take(items@.len() as int) =~= all);
        list
    }
}

/// A pattern of the core language.
#[derive(Debug, Copy, Clone)]
pub enum Pat<'core> {
    Error,
    Underscore,
    Ident(Symbol<'core>),
    Lit(Const),
    RecordLit(&'core Vec<(Symbol<'core>, Pat<'core>)>),
}

impl<'core> Pat<'core> {
    /// The name that the pattern binds, if it is a binder.
    pub fn name(&self) -> (r: Option<Symbol<'core>>)
        ensures
            r == match *self {
                Pat::Ident(symbol) => Some(symbol),
                _ => None,
            },
    {
        match *self {
            Pat::Ident(symbol) => Some(symbol),
            _ => None,
        }
    }
}

impl<'core> View for Expr<'core> {
    type V = Term;

    open spec fn view(&self) -> Term {
        self.term()
    }
}

} // verus!
