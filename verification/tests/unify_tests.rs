//! Unification and the solutions of metavariables.

use bumpalo::Bump;
use pion::elab::{Elaborator, MetaSource};
use pion::env::{AbsoluteVar, EnvLen, RelativeVar, SharedEnv, UniqueEnv};
use pion::prim::Prim;
use pion::semantics::{Elim, ElimEnv, EvalOpts, Head, Value};
use pion::source::TextRange;
use pion::symbol::Symbol;
use pion::syntax::{Const, Expr, FunArg, FunParam};
use pion::unify::{PartialRenaming, RenameError, SpineError, UnifyCtx, UnifyError};

const FUEL: usize = 1000;

fn hole() -> MetaSource<'static> {
    MetaSource::HoleExpr { range: TextRange::new(0, 1) }
}

fn int_type() -> Value<'static> {
    Value::Prim(Prim::Int)
}

fn closed_value<'a>(bump: &'a Bump, expr: Expr<'a>) -> Value<'a> {
    let metas = UniqueEnv::new();
    ElimEnv::new(bump, EvalOpts::default(), &metas)
        .eval(SharedEnv::new(), bump.alloc(expr), FUEL)
        .unwrap()
}

fn applied<'a>(bump: &'a Bump, head: Head, args: &[Value<'a>]) -> Value<'a> {
    let mut spine = SharedEnv::new();
    for arg in args {
        spine.push(bump, Elim::FunApp(FunArg::explicit(&*bump.alloc(*arg))));
    }
    Value::Neutral(head, spine)
}

#[test]
fn a_value_unifies_with_itself() {
    let bump = Bump::new();
    let mut elab = Elaborator::new(&bump, "", 0);
    assert_eq!(elab.unify(&int_type(), &int_type()), Ok(()));
    assert_eq!(elab.unify(&Value::Lit(Const::Int(3)), &Value::Lit(Const::Int(3))), Ok(()));
    elab.local_env.push_param(None, int_type());
    let x = Value::local_var(AbsoluteVar { level: 0 });
    assert_eq!(elab.unify(&x, &x), Ok(()));
}

#[test]
fn values_that_differ_do_not_unify() {
    let bump = Bump::new();
    let mut elab = Elaborator::new(&bump, "", 0);
    assert_eq!(elab.unify(&int_type(), &Value::Prim(Prim::Bool)), Err(UnifyError::Mismatch));
    assert_eq!(
        elab.unify(&Value::Lit(Const::Int(3)), &Value::Lit(Const::Int(4))),
        Err(UnifyError::Mismatch)
    );
    assert_eq!(
        elab.unify(&Value::Lit(Const::Bool(true)), &Value::Lit(Const::Int(1))),
        Err(UnifyError::Mismatch)
    );
}

#[test]
fn the_error_value_unifies_with_anything() {
    let bump = Bump::new();
    let mut elab = Elaborator::new(&bump, "", 0);
    assert_eq!(elab.unify(&Value::error(), &int_type()), Ok(()));
    assert_eq!(elab.unify(&Value::Lit(Const::Int(1)), &Value::error()), Ok(()));
}

#[test]
fn unifying_a_metavariable_with_a_value_solves_it() {
    let bump = Bump::new();
    let mut elab = Elaborator::new(&bump, "", 0);
    elab.meta_env.push(hole(), Value::type_of_types());
    let meta = Value::meta_var(AbsoluteVar { level: 0 });
    assert_eq!(elab.unify(&meta, &int_type()), Ok(()));
    assert!(matches!(elab.meta_env.values.elems[0], Some(Value::Prim(Prim::Int))));
    assert_eq!(elab.unify(&int_type(), &meta), Ok(()));
    assert_eq!(elab.unify(&meta, &Value::Prim(Prim::Bool)), Err(UnifyError::Mismatch));
    assert!(matches!(elab.meta_env.values.elems[0], Some(Value::Prim(Prim::Int))));
}

#[test]
fn a_metavariable_applied_to_variables_is_solved_by_a_function() {
    let bump = Bump::new();
    let mut elab = Elaborator::new(&bump, "", 0);
    elab.local_env.push_param(Some(Symbol::new("x")), int_type());
    elab.local_env.push_param(Some(Symbol::new("y")), int_type());
    elab.meta_env.push(hole(), Value::type_of_types());
    let x = Value::local_var(AbsoluteVar { level: 0 });
    let y = Value::local_var(AbsoluteVar { level: 1 });
    let meta = applied(&bump, Head::MetaVar(AbsoluteVar { level: 0 }), &[x, y]);
    assert_eq!(elab.unify(&meta, &x), Ok(()));
    let solution = elab.meta_env.values.elems[0].unwrap();
    let metas = UniqueEnv::new();
    let term = pion::quote::QuoteEnv::new(&bump, EnvLen::new(), &metas)
        .quote(&solution, FUEL)
        .unwrap();
    let expected = Expr::FunLit {
        param: FunParam::explicit(None, &Expr::Prim(Prim::Int)),
        body: &Expr::FunLit {
            param: FunParam::explicit(None, &Expr::Prim(Prim::Int)),
            body: &Expr::LocalVar(RelativeVar { index: 1 }),
        },
    };
    assert!(term.alpha_eq(&expected), "{term:?}");
}

#[test]
fn a_metavariable_applied_twice_to_a_variable_is_no_pattern() {
    let bump = Bump::new();
    let mut elab = Elaborator::new(&bump, "", 0);
    elab.local_env.push_param(None, int_type());
    elab.meta_env.push(hole(), Value::type_of_types());
    let x = Value::local_var(AbsoluteVar { level: 0 });
    let meta = applied(&bump, Head::MetaVar(AbsoluteVar { level: 0 }), &[x, x]);
    assert_eq!(
        elab.unify(&meta, &int_type()),
        Err(UnifyError::Spine(SpineError::NonLinearSpine(AbsoluteVar { level: 0 })))
    );
    assert!(elab.meta_env.values.elems[0].is_none());
}

#[test]
fn a_metavariable_applied_to_what_is_no_variable_is_no_pattern() {
    let bump = Bump::new();
    let mut elab = Elaborator::new(&bump, "", 0);
    elab.meta_env.push(hole(), Value::type_of_types());
    let meta = applied(&bump, Head::MetaVar(AbsoluteVar { level: 0 }), &[Value::Lit(Const::Int(1))]);
    assert_eq!(elab.unify(&meta, &int_type()), Err(UnifyError::Spine(SpineError::NonLocalFunApp)));
}

#[test]
fn a_metavariable_that_is_projected_from_is_no_pattern() {
    let bump = Bump::new();
    let mut elab = Elaborator::new(&bump, "", 0);
    elab.meta_env.push(hole(), Value::type_of_types());
    let mut spine = SharedEnv::new();
    spine.push(&bump, Elim::RecordProj(Symbol::new("x")));
    let meta = Value::Neutral(Head::MetaVar(AbsoluteVar { level: 0 }), spine);
    assert_eq!(elab.unify(&meta, &int_type()), Err(UnifyError::Spine(SpineError::RecordProj)));
}

#[test]
fn a_metavariable_that_is_matched_on_is_no_pattern() {
    let bump = Bump::new();
    let mut elab = Elaborator::new(&bump, "", 0);
    elab.meta_env.push(hole(), Value::type_of_types());
    let mut spine = SharedEnv::new();
    spine.push(
        &bump,
        Elim::MatchBool {
            env: SharedEnv::new(),
            then_branch: &Expr::Lit(Const::Int(1)),
            else_branch: &Expr::Lit(Const::Int(2)),
        },
    );
    let meta = Value::Neutral(Head::MetaVar(AbsoluteVar { level: 0 }), spine);
    assert_eq!(elab.unify(&meta, &int_type()), Err(UnifyError::Spine(SpineError::Match)));
}

#[test]
fn a_solution_cannot_hold_a_variable_that_the_metavariable_does_not_see() {
    let bump = Bump::new();
    let mut elab = Elaborator::new(&bump, "", 0);
    elab.local_env.push_param(None, int_type());
    elab.local_env.push_param(None, int_type());
    elab.meta_env.push(hole(), Value::type_of_types());
    let x = Value::local_var(AbsoluteVar { level: 0 });
    let y = Value::local_var(AbsoluteVar { level: 1 });
    let meta = applied(&bump, Head::MetaVar(AbsoluteVar { level: 0 }), &[x]);
    assert_eq!(
        elab.unify(&meta, &y),
        Err(UnifyError::Rename(RenameError::EscapingLocalVar(AbsoluteVar { level: 1 })))
    );
    assert!(elab.meta_env.values.elems[0].is_none());
}

#[test]
fn a_solution_cannot_hold_the_metavariable_itself() {
    let bump = Bump::new();
    let mut elab = Elaborator::new(&bump, "", 0);
    elab.meta_env.push(hole(), Value::type_of_types());
    let meta = Value::meta_var(AbsoluteVar { level: 0 });
    let list_of_meta = applied(&bump, Head::Prim(Prim::List), &[meta]);
    assert_eq!(
        elab.unify(&meta, &list_of_meta),
        Err(UnifyError::Rename(RenameError::InfiniteSolution))
    );
}

#[test]
fn unification_ends_where_the_fuel_ends() {
    let bump = Bump::new();
    let types = UniqueEnv::new();
    let ctx = UnifyCtx::new(&bump, EnvLen::new(), &types);
    let mut renaming = PartialRenaming::new();
    let mut metas = UniqueEnv::new();
    assert_eq!(
        ctx.unify(&mut renaming, &mut metas, &int_type(), &int_type(), 0),
        Err(UnifyError::OutOfFuel)
    );
    assert_eq!(ctx.unify(&mut renaming, &mut metas, &int_type(), &int_type(), FUEL), Ok(()));
}

#[test]
fn solving_a_metavariable_again_with_the_same_solution_changes_nothing() {
    let bump = Bump::new();
    let types = UniqueEnv::new();
    let ctx = UnifyCtx::new(&bump, EnvLen::new(), &types);
    let mut metas = UniqueEnv::new();
    metas.push(None);
    let meta = AbsoluteVar { level: 0 };
    let identity = Expr::FunLit {
        param: FunParam::explicit(Some(Symbol::new("x")), &Expr::Prim(Prim::Int)),
        body: &Expr::LocalVar(RelativeVar { index: 0 }),
    };
    let renamed = Expr::FunLit {
        param: FunParam::explicit(Some(Symbol::new("y")), &Expr::Prim(Prim::Int)),
        body: &Expr::LocalVar(RelativeVar { index: 0 }),
    };
    let constant = Expr::FunLit {
        param: FunParam::explicit(Some(Symbol::new("x")), &Expr::Prim(Prim::Int)),
        body: &Expr::Lit(Const::Int(0)),
    };
    assert_eq!(ctx.solve_meta(&mut metas, meta, &identity, FUEL), Ok(()));
    assert!(matches!(metas.elems[0], Some(Value::FunLit { .. })));
    assert_eq!(ctx.solve_meta(&mut metas, meta, &identity, FUEL), Ok(()));
    assert_eq!(ctx.solve_meta(&mut metas, meta, &renamed, FUEL), Ok(()));
    assert_eq!(ctx.solve_meta(&mut metas, meta, &constant, FUEL), Err(UnifyError::Mismatch));
    match metas.elems[0] {
        Some(Value::FunLit { body, .. }) => {
            assert!(matches!(body.body, Expr::LocalVar(RelativeVar { index: 0 })));
        }
        other => panic!("{other:?}"),
    }
    assert_eq!(
        ctx.solve_meta(&mut metas, AbsoluteVar { level: 1 }, &identity, FUEL),
        Err(UnifyError::Mismatch)
    );
}

#[test]
fn functions_unify_when_their_bodies_do() {
    let bump = Bump::new();
    let mut elab = Elaborator::new(&bump, "", 0);
    elab.meta_env.push(hole(), Value::type_of_types());
    let int_to_int = closed_value(
        &bump,
        Expr::FunType {
            param: FunParam::explicit(None, &Expr::Prim(Prim::Int)),
            body: &Expr::Prim(Prim::Int),
        },
    );
    let int_to_meta = closed_value(
        &bump,
        Expr::FunType {
            param: FunParam::explicit(None, &Expr::Prim(Prim::Int)),
            body: &Expr::MetaVar(AbsoluteVar { level: 0 }),
        },
    );
    let int_to_bool = closed_value(
        &bump,
        Expr::FunType {
            param: FunParam::explicit(None, &Expr::Prim(Prim::Int)),
            body: &Expr::Prim(Prim::Bool),
        },
    );
    assert_eq!(elab.unify(&int_to_int, &int_to_bool), Err(UnifyError::Mismatch));
    assert_eq!(elab.unify(&int_to_meta, &int_to_int), Ok(()));
    assert!(matches!(elab.meta_env.values.elems[0], Some(Value::Prim(Prim::Int))));
    assert_eq!(elab.unify(&int_to_meta, &int_to_bool), Err(UnifyError::Mismatch));
}

#[test]
fn unifying_a_solved_metavariable_is_unifying_its_solution() {
    let bump = Bump::new();
    let types = UniqueEnv::new();
    let ctx = UnifyCtx::new(&bump, EnvLen::new(), &types);
    let mut renaming = PartialRenaming::new();
    let mut metas = UniqueEnv::new();
    metas.push(Some(int_type()));
    let meta = Value::Neutral(Head::MetaVar(AbsoluteVar { level: 0 }), SharedEnv::Empty);
    assert_eq!(ctx.unify(&mut renaming, &mut metas, &meta, &int_type(), FUEL), Ok(()));
    assert!(matches!(metas.elems[0], Some(Value::Prim(Prim::Int))));
    assert_eq!(
        ctx.unify(&mut renaming, &mut metas, &meta, &Value::Prim(Prim::Bool), FUEL),
        Err(UnifyError::Mismatch)
    );
    assert!(matches!(metas.elems[0], Some(Value::Prim(Prim::Int))));
    assert_eq!(
        ctx.unify(&mut renaming, &mut metas, &meta, &Value::Lit(Const::Int(1)), FUEL),
        Err(UnifyError::Mismatch)
    );
    assert_eq!(metas.elems.len(), 1);
}
