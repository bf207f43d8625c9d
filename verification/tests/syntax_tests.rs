//! Core terms: variables, shifting, scopes and equality up to names.

use bumpalo::Bump;
use pion::env::{AbsoluteVar, EnvLen, RelativeVar};
use pion::plicity::Plicity;
use pion::prim::Prim;
use pion::symbol::Symbol;
use pion::syntax::{Const, Expr, FunArg, FunParam, Pat};

#[test]
fn shift_by_zero_is_the_same_term() {
    let bump = Bump::new();
    let var = Expr::LocalVar(RelativeVar { index: 3 });
    let shifted = var.shift(&bump, EnvLen { len: 0 });
    assert!(matches!(shifted, Expr::LocalVar(RelativeVar { index: 3 })));
}

#[test]
fn shift_moves_free_variables_only() {
    let bump = Bump::new();
    let lit = Expr::Lit(Const::Int(7));
    assert!(matches!(lit.shift(&bump, EnvLen { len: 2 }), Expr::Lit(Const::Int(7))));
    let var = Expr::LocalVar(RelativeVar { index: 1 });
    assert!(matches!(
        var.shift(&bump, EnvLen { len: 2 }),
        Expr::LocalVar(RelativeVar { index: 3 })
    ));
}

fn var<'a>(index: usize) -> Expr<'a> {
    Expr::LocalVar(RelativeVar { index })
}

fn fun<'a>(bump: &'a Bump, ty: Expr<'a>, body: Expr<'a>) -> Expr<'a> {
    Expr::FunLit { param: FunParam::explicit(None, bump.alloc(ty)), body: bump.alloc(body) }
}

#[test]
fn shift_leaves_bound_variables_alone() {
    let bump = Bump::new();
    let term = fun(&bump, var(0), Expr::FunApp {
        fun: bump.alloc(var(0)),
        arg: FunArg::explicit(bump.alloc(var(1))),
    });
    let expected = fun(&bump, var(3), Expr::FunApp {
        fun: bump.alloc(var(0)),
        arg: FunArg::explicit(bump.alloc(var(4))),
    });
    assert!(term.shift(&bump, EnvLen { len: 3 }).alpha_eq(&expected));
}

#[test]
fn shift_counts_the_fields_of_a_record_type_as_binders() {
    let bump = Bump::new();
    let term = Expr::RecordType(bump.alloc(vec![
        (Symbol::new("a"), var(0)),
        (Symbol::new("b"), var(0)),
        (Symbol::new("c"), var(2)),
    ]));
    let expected = Expr::RecordType(bump.alloc(vec![
        (Symbol::new("a"), var(5)),
        (Symbol::new("b"), var(0)),
        (Symbol::new("c"), var(7)),
    ]));
    assert!(term.shift(&bump, EnvLen { len: 5 }).alpha_eq(&expected));
    let lit = Expr::RecordLit(bump.alloc(vec![(Symbol::new("a"), var(0)), (Symbol::new("b"), var(0))]));
    let moved = Expr::RecordLit(bump.alloc(vec![(Symbol::new("a"), var(5)), (Symbol::new("b"), var(5))]));
    assert!(lit.shift(&bump, EnvLen { len: 5 }).alpha_eq(&moved));
}

#[test]
fn shift_goes_under_the_binder_of_a_let_and_into_every_case() {
    let bump = Bump::new();
    let term = Expr::Let {
        name: None,
        ty: bump.alloc(var(0)),
        init: bump.alloc(var(1)),
        body: bump.alloc(Expr::MatchInt {
            scrut: bump.alloc(var(0)),
            cases: bump.alloc(vec![(1, var(1)), (2, var(0))]),
            default: bump.alloc(var(2)),
        }),
    };
    let expected = Expr::Let {
        name: None,
        ty: bump.alloc(var(1)),
        init: bump.alloc(var(2)),
        body: bump.alloc(Expr::MatchInt {
            scrut: bump.alloc(var(0)),
            cases: bump.alloc(vec![(1, var(2)), (2, var(0))]),
            default: bump.alloc(var(3)),
        }),
    };
    assert!(term.shift(&bump, EnvLen { len: 1 }).alpha_eq(&expected));
}

#[test]
fn a_shift_that_leaves_the_machine_word_is_refused() {
    let bump = Bump::new();
    let far = var(usize::MAX - 1);
    assert!(far.checked_shift(&bump, EnvLen { len: 1 }).is_some());
    assert!(far.checked_shift(&bump, EnvLen { len: 2 }).is_none());
    assert!(far.checked_shift(&bump, EnvLen { len: 0 }).is_some());
    let bound = fun(&bump, Expr::Prim(Prim::Int), var(0));
    assert!(bound.checked_shift(&bump, EnvLen { len: usize::MAX }).is_some());
    assert!(var(0).checked_shift(&bump, EnvLen { len: usize::MAX }).is_some());
    assert!(var(1).checked_shift(&bump, EnvLen { len: usize::MAX }).is_none());
}

#[test]
fn a_term_refers_to_a_variable_where_it_occurs_free() {
    let bump = Bump::new();
    assert!(var(2).references_local(RelativeVar { index: 2 }));
    assert!(!var(2).references_local(RelativeVar { index: 1 }));
    assert!(!Expr::Lit(Const::Int(2)).references_local(RelativeVar { index: 2 }));
    let under = fun(&bump, Expr::Prim(Prim::Int), var(1));
    assert!(under.references_local(RelativeVar { index: 0 }));
    assert!(!under.references_local(RelativeVar { index: 1 }));
    let bound = fun(&bump, Expr::Prim(Prim::Int), var(0));
    assert!(!bound.references_local(RelativeVar { index: 0 }));
    let in_type = fun(&bump, var(0), var(0));
    assert!(in_type.references_local(RelativeVar { index: 0 }));
    let telescope = Expr::RecordType(bump.alloc(vec![
        (Symbol::new("a"), Expr::Prim(Prim::Type)),
        (Symbol::new("b"), var(1)),
    ]));
    assert!(telescope.references_local(RelativeVar { index: 0 }));
    let closed = Expr::RecordType(bump.alloc(vec![
        (Symbol::new("a"), Expr::Prim(Prim::Type)),
        (Symbol::new("b"), var(0)),
    ]));
    assert!(!closed.references_local(RelativeVar { index: 0 }));
}

#[test]
fn a_term_is_scoped_where_its_variables_are_bound() {
    let bump = Bump::new();
    assert!(var(0).is_scoped(EnvLen { len: 1 }));
    assert!(!var(0).is_scoped(EnvLen { len: 0 }));
    assert!(!var(1).is_scoped(EnvLen { len: 1 }));
    assert!(fun(&bump, Expr::Prim(Prim::Int), var(0)).is_scoped(EnvLen { len: 0 }));
    assert!(!fun(&bump, var(0), var(0)).is_scoped(EnvLen { len: 0 }));
    assert!(!fun(&bump, Expr::Prim(Prim::Int), var(1)).is_scoped(EnvLen { len: 0 }));
    assert!(Expr::MetaVar(AbsoluteVar { level: 9 }).is_scoped(EnvLen { len: 0 }));
}

#[test]
fn terms_are_equal_up_to_the_names_of_their_binders() {
    let bump = Bump::new();
    let named = |name: &'static str| Expr::FunLit {
        param: FunParam::explicit(Some(Symbol::new(name)), &Expr::Prim(Prim::Int)),
        body: &Expr::LocalVar(RelativeVar { index: 0 }),
    };
    assert!(named("x").alpha_eq(&named("y")));
    let implicit = Expr::FunLit {
        param: FunParam::implicit(Some(Symbol::new("x")), &Expr::Prim(Prim::Int)),
        body: &Expr::LocalVar(RelativeVar { index: 0 }),
    };
    assert!(!named("x").alpha_eq(&implicit));
    assert!(!var(0).alpha_eq(&var(1)));
    assert!(!Expr::Lit(Const::Int(1)).alpha_eq(&Expr::Lit(Const::Bool(true))));
    let one = Expr::RecordLit(bump.alloc(vec![(Symbol::new("x"), var(0))]));
    let other = Expr::RecordLit(bump.alloc(vec![(Symbol::new("y"), var(0))]));
    assert!(one.alpha_eq(&one));
    assert!(!one.alpha_eq(&other));
}

#[test]
fn lets_wraps_the_body_with_the_first_binding_outermost() {
    let bump = Bump::new();
    let bindings = [
        (Some(Symbol::new("x")), Expr::Prim(Prim::Int), Expr::Lit(Const::Int(1))),
        (Some(Symbol::new("y")), Expr::Prim(Prim::Bool), Expr::Lit(Const::Bool(true))),
    ];
    match Expr::lets(&bump, &bindings, var(1)) {
        Expr::Let { name, ty, init, body } => {
            assert_eq!(name, Some(Symbol::new("x")));
            assert!(matches!(ty, Expr::Prim(Prim::Int)));
            assert!(matches!(init, Expr::Lit(Const::Int(1))));
            match body {
                Expr::Let { name, ty, init, body } => {
                    assert_eq!(*name, Some(Symbol::new("y")));
                    assert!(matches!(ty, Expr::Prim(Prim::Bool)));
                    assert!(matches!(init, Expr::Lit(Const::Bool(true))));
                    assert!(matches!(body, Expr::LocalVar(RelativeVar { index: 1 })));
                }
                other => panic!("{other:?}"),
            }
        }
        other => panic!("{other:?}"),
    }
    assert!(matches!(Expr::lets(&bump, &[], var(4)), Expr::LocalVar(RelativeVar { index: 4 })));
}

#[test]
fn only_an_identifier_pattern_has_a_name() {
    assert_eq!(Pat::Ident(Symbol::new("x")).name(), Some(Symbol::new("x")));
    assert_eq!(Pat::Underscore.name(), None);
    assert_eq!(Pat::Error.name(), None);
    assert_eq!(Pat::Lit(Const::Int(1)).name(), None);
}

#[test]
fn parameters_and_arguments_carry_their_plicity() {
    let explicit = FunParam::explicit(None, 1);
    let implicit = FunParam::implicit(Some(Symbol::new("A")), 2);
    assert_eq!(explicit.plicity, Plicity::Explicit);
    assert_eq!(implicit.plicity, Plicity::Implicit);
    assert_eq!(implicit.name, Some(Symbol::new("A")));
    assert_eq!(FunParam::new(Plicity::Implicit, None, 3).ty, 3);
    assert_eq!(FunArg::explicit(4).plicity, Plicity::Explicit);
    assert_eq!(FunArg::implicit(5).plicity, Plicity::Implicit);
    assert_eq!(FunArg::new(Plicity::Implicit, 6).expr, 6);
}
