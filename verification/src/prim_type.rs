//! The types of the primitives, and the primitives by name.

use crate::arena::arena_alloc;
use crate::env::RelativeVar;
use crate::plicity::Plicity;
use crate::prim::Prim;
use crate::symbol::Symbol;
use crate::syntax::{Const, Expr, FunArg, FunParam, Term};
use crate::text::str_eq;
use vstd::prelude::*;

verus! {

/// `lhs -> rhs`: a function type whose parameter has no name.
pub open spec fn t_arrow(lhs: Term, rhs: Term) -> Term {
    Term::FunType { plicity: Plicity::Explicit, name: None, ty: Box::new(lhs), body: Box::new(rhs) }
}

/// `forall (name : ty) -> body`.
pub open spec fn t_forall(plicity: Plicity, name: Seq<char>, ty: Term, body: Term) -> Term {
    Term::FunType { plicity, name: Some(name), ty: Box::new(ty), body: Box::new(body) }
}

/// `fun arg`.
pub open spec fn t_app(fun: Term, plicity: Plicity, arg: Term) -> Term {
    Term::FunApp { fun: Box::new(fun), plicity, arg: Box::new(arg) }
}

/// `List elem`.
pub open spec fn t_list(elem: Term) -> Term {
    t_app(Term::Prim(Prim::List), Plicity::Explicit, elem)
}

/// `Eq @ty lhs rhs`.
pub open spec fn t_eq(ty: Term, lhs: Term, rhs: Term) -> Term {
    t_app(
        t_app(t_app(Term::Prim(Prim::Eq), Plicity::Implicit, ty), Plicity::Explicit, lhs),
        Plicity::Explicit,
        rhs,
    )
}

/// The type of a primitive: a closed term.
pub open spec fn prim_type_term(prim: Prim) -> Term {
    let ty = Term::Prim(Prim::Type);
    let integer = Term::Prim(Prim::Int);
    let boolean = Term::Prim(Prim::Bool);
    let v = |i: nat| Term::LocalVar(i);
    match prim {
        Prim::Type | Prim::Bool | Prim::Int => ty,
        Prim::List => t_arrow(ty, ty),
        Prim::Eq => t_forall(Plicity::Implicit, "A"@, ty, t_arrow(v(0), t_arrow(v(1), ty))),
        Prim::Add | Prim::Sub | Prim::Mul => t_arrow(integer, t_arrow(integer, integer)),
        Prim::IntEq | Prim::IntNe | Prim::IntLt | Prim::IntGt | Prim::IntLte | Prim::IntGte => {
            t_arrow(integer, t_arrow(integer, boolean))
        },
        Prim::Fix => t_forall(
            Plicity::Implicit,
            "A"@,
            ty,
            t_forall(
                Plicity::Implicit,
                "B"@,
                ty,
                t_arrow(
                    t_arrow(t_arrow(v(1), v(1)), t_arrow(v(2), v(2))),
                    t_arrow(v(2), v(2)),
                ),
            ),
        ),
        Prim::Refl => t_forall(
            Plicity::Implicit,
            "A"@,
            ty,
            t_forall(Plicity::Explicit, "a"@, v(0), t_eq(v(1), v(0), v(0))),
        ),
        Prim::Subst => t_forall(
            Plicity::Implicit,
            "A"@,
            ty,
            t_forall(
                Plicity::Implicit,
                "p"@,
                t_arrow(v(0), ty),
                t_forall(
                    Plicity::Explicit,
                    "a"@,
                    v(1),
                    t_forall(
                        Plicity::Explicit,
                        "b"@,
                        v(2),
                        t_arrow(
                            t_eq(v(3), v(1), v(0)),
                            t_arrow(
                                t_app(v(3), Plicity::Explicit, v(2)),
                                t_app(v(4), Plicity::Explicit, v(2)),
                            ),
                        ),
                    ),
                ),
            ),
        ),
        Prim::Len => t_forall(Plicity::Implicit, "A"@, ty, t_arrow(t_list(v(0)), integer)),
        Prim::Push => t_forall(
            Plicity::Implicit,
            "A"@,
            ty,
            t_arrow(t_list(v(0)), t_arrow(v(1), t_list(v(2)))),
        ),
        Prim::Append => t_forall(
            Plicity::Implicit,
            "A"@,
            ty,
            t_arrow(t_list(v(0)), t_arrow(t_list(v(1)), t_list(v(2)))),
        ),
        Prim::ListLit => t_forall(Plicity::Implicit, "A"@, ty, t_list(v(0))),
        Prim::BoolRec => t_forall(
            Plicity::Implicit,
            "p"@,
            t_arrow(boolean, ty),
            t_forall(
                Plicity::Explicit,
                "b"@,
                boolean,
                t_arrow(
                    t_app(v(1), Plicity::Explicit, Term::Lit(Const::Bool(true))),
                    t_arrow(
                        t_app(v(2), Plicity::Explicit, Term::Lit(Const::Bool(false))),
                        t_app(v(3), Plicity::Explicit, v(2)),
                    ),
                ),
            ),
        ),
    }
}

/// The primitive that surface syntax knows under the name `name`.
pub open spec fn prim_named(name: Seq<char>) -> Option<Prim> {
    if name == "Type"@ {
        Some(Prim::Type)
    } else if name == "Bool"@ {
        Some(Prim::Bool)
    } else if name == "Int"@ {
        Some(Prim::Int)
    } else if name == "List"@ {
        Some(Prim::List)
    } else if name == "Eq"@ {
        Some(Prim::Eq)
    } else if name == "add"@ {
        Some(Prim::Add)
    } else if name == "sub"@ {
        Some(Prim::Sub)
    } else if name == "mul"@ {
        Some(Prim::Mul)
    } else if name == "eq"@ {
        Some(Prim::IntEq)
    } else if name == "ne"@ {
        Some(Prim::IntNe)
    } else if name == "lt"@ {
        Some(Prim::IntLt)
    } else if name == "gt"@ {
        Some(Prim::IntGt)
    } else if name == "lte"@ {
        Some(Prim::IntLte)
    } else if name == "gte"@ {
        Some(Prim::IntGte)
    } else if name == "fix"@ {
        Some(Prim::Fix)
    } else if name == "refl"@ {
        Some(Prim::Refl)
    } else if name == "subst"@ {
        Some(Prim::Subst)
    } else if name == "len"@ {
        Some(Prim::Len)
    } else if name == "push"@ {
        Some(Prim::Push)
    } else if name == "append"@ {
        Some(Prim::Append)
    } else if name == "bool_rec"@ {
        Some(Prim::BoolRec)
    } else {
        None
    }
}

/// The primitive that surface syntax knows under the name `name`.
pub fn prim_from_name(name: &str) -> (r: Option<Prim>)
    ensures
        r == prim_named(name@),
{
    if str_eq(name, "Type") {
        Some(Prim::Type)
    } else if str_eq(name, "Bool") {
        Some(Prim::Bool)
    } else if str_eq(name, "Int") {
        Some(Prim::Int)
    } else if str_eq(name, "List") {
        Some(Prim::List)
    } else if str_eq(name, "Eq") {
        Some(Prim::Eq)
    } else if str_eq(name, "add") {
        Some(Prim::Add)
    } else if str_eq(name, "sub") {
        Some(Prim::Sub)
    } else if str_eq(name, "mul") {
        Some(Prim::Mul)
    } else if str_eq(name, "eq") {
        Some(Prim::IntEq)
    } else if str_eq(name, "ne") {
        Some(Prim::IntNe)
    } else if str_eq(name, "lt") {
        Some(Prim::IntLt)
    } else if str_eq(name, "gt") {
        Some(Prim::IntGt)
    } else if str_eq(name, "lte") {
        Some(Prim::IntLte)
    } else if str_eq(name, "gte") {
        Some(Prim::IntGte)
    } else if str_eq(name, "fix") {
        Some(Prim::Fix)
    } else if str_eq(name, "refl") {
        Some(Prim::Refl)
    } else if str_eq(name, "subst") {
        Some(Prim::Subst)
    } else if str_eq(name, "len") {
        Some(Prim::Len)
    } else if str_eq(name, "push") {
        Some(Prim::Push)
    } else if str_eq(name, "append") {
        Some(Prim::Append)
    } else if str_eq(name, "bool_rec") {
        Some(Prim::BoolRec)
    } else {
        None
    }
}

/// Builds terms in an arena.
#[derive(Debug, Copy, Clone)]
pub struct TermBuilder<'core> {
    pub bump: &'core bumpalo::Bump,
}

impl<'core> TermBuilder<'core> {
    /// The variable of index `index`.
    pub fn var(&self, index: usize) -> (r: Expr<'core>)
        ensures
            r@ == Term::LocalVar(index as nat),
    {
        Expr::LocalVar(RelativeVar { index })
    }

    /// `lhs -> rhs`.
    pub fn arrow(&self, lhs: Expr<'core>, rhs: Expr<'core>) -> (r: Expr<'core>)
        ensures
            r@ == t_arrow(lhs@, rhs@),
    {
        let lhs = arena_alloc(self.bump, lhs);
        Expr::FunType { param: FunParam::explicit(None, lhs), body: arena_alloc(self.bump, rhs) }
    }

    /// `forall (name : ty) -> body`.
    pub fn fun_type(
        &self,
        plicity: Plicity,
        name: &'core str,
        ty: Expr<'core>,
        body: Expr<'core>,
    ) -> (r: Expr<'core>)
        ensures
            r@ == t_forall(plicity, name@, ty@, body@),
    {
        let ty = arena_alloc(self.bump, ty);
        Expr::FunType {
            param: FunParam::new(plicity, Some(Symbol::new(name)), ty),
            body: arena_alloc(self.bump, body),
        }
    }

    /// `fun arg`.
    pub fn app(&self, fun: Expr<'core>, plicity: Plicity, arg: Expr<'core>) -> (r: Expr<'core>)
        ensures
            r@ == t_app(fun@, plicity, arg@),
    {
        let arg = arena_alloc(self.bump, arg);
        Expr::FunApp { fun: arena_alloc(self.bump, fun), arg: FunArg::new(plicity, arg) }
    }

    /// `List elem`.
    pub fn list(&self, elem: Expr<'core>) -> (r: Expr<'core>)
        ensures
            r@ == t_list(elem@),
    {
        self.app(Expr::Prim(Prim::List), Plicity::Explicit, elem)
    }

    /// `Eq @ty lhs rhs`.
    pub fn equality(&self, ty: Expr<'core>, lhs: Expr<'core>, rhs: Expr<'core>) -> (r: Expr<'core>)
        ensures
            r@ == t_eq(ty@, lhs@, rhs@),
    {
        let eq = self.app(Expr::Prim(Prim::Eq), Plicity::Implicit, ty);
        self.app(self.app(eq, Plicity::Explicit, lhs), Plicity::Explicit, rhs)
    }

    /// The type of a primitive.
    pub fn prim_type(&self, prim: Prim) -> (r: Expr<'core>)
        ensures
            r@ == prim_type_term(prim),
    {
        let ty = Expr::Prim(Prim::Type);
        let integer = Expr::Prim(Prim::Int);
        let boolean = Expr::Prim(Prim::Bool);
        match prim {
            Prim::Type | Prim::Bool | Prim::Int => ty,
            Prim::List => self.arrow(ty, ty),
            Prim::Eq => self.fun_type(
                Plicity::Implicit,
                "A",
                ty,
                self.arrow(self.var(0), self.arrow(self.var(1), ty)),
            ),
            Prim::Add | Prim::Sub | Prim::Mul => self.arrow(integer, self.arrow(integer, integer)),
            Prim::IntEq | Prim::IntNe | Prim::IntLt | Prim::IntGt | Prim::IntLte | Prim::IntGte => {
                self.arrow(integer, self.arrow(integer, boolean))
            },
            Prim::Fix => {
                let step = self.arrow(
                    self.arrow(self.var(1), self.var(1)),
                    self.arrow(self.var(2), self.var(2)),
                );
                let body = self.arrow(step, self.arrow(self.var(2), self.var(2)));
                self.fun_type(
                    Plicity::Implicit,
                    "A",
                    ty,
                    self.fun_type(Plicity::Implicit, "B", ty, body),
                )
            },
            Prim::Refl => {
                let body = self.equality(self.var(1), self.var(0), self.var(0));
                self.fun_type(
                    Plicity::Implicit,
                    "A",
                    ty,
                    self.fun_type(Plicity::Explicit, "a", self.var(0), body),
                )
            },
            Prim::Subst => {
                let from = self.app(self.var(3), Plicity::Explicit, self.var(2));
                let to = self.app(self.var(4), Plicity::Explicit, self.var(2));
                let body = self.arrow(
                    self.equality(self.var(3), self.var(1), self.var(0)),
                    self.arrow(from, to),
                );
                let over_b = self.fun_type(Plicity::Explicit, "b", self.var(2), body);
                let over_a = self.fun_type(Plicity::Explicit, "a", self.var(1), over_b);
                let over_p = self.fun_type(
                    Plicity::Implicit,
                    "p",
                    self.arrow(self.var(0), ty),
                    over_a,
                );
                self.fun_type(Plicity::Implicit, "A", ty, over_p)
            },
            Prim::Len => self.fun_type(
                Plicity::Implicit,
                "A",
                ty,
                self.arrow(self.list(self.var(0)), integer),
            ),
            Prim::Push => {
                let body = self.arrow(
                    self.list(self.var(0)),
                    self.arrow(self.var(1), self.list(self.var(2))),
                );
                self.fun_type(Plicity::Implicit, "A", ty, body)
            },
            Prim::Append => {
                let body = self.arrow(
                    self.list(self.var(0)),
                    self.arrow(self.list(self.var(1)), self.list(self.var(2))),
                );
                self.fun_type(Plicity::Implicit, "A", ty, body)
            },
            Prim::ListLit => self.fun_type(Plicity::Implicit, "A", ty, self.list(self.var(0))),
            Prim::BoolRec => {
                let on_true = self.app(self.var(1), Plicity::Explicit, Expr::Lit(Const::Bool(true)));
                let on_false = self.app(
                    self.var(2),
                    Plicity::Explicit,
                    Expr::Lit(Const::Bool(false)),
                );
                let result = self.app(self.var(3), Plicity::Explicit, self.var(2));
                let body = self.arrow(on_true, self.arrow(on_false, result));
                self.fun_type(
                    Plicity::Implicit,
                    "p",
                    self.arrow(boolean, ty),
                    self.fun_type(Plicity::Explicit, "b", boolean, body),
                )
            },
        }
    }
}

} // verus!
