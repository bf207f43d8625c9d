//! Evaluation, reading back, and the solutions of metavariables.

use bumpalo::Bump;
use pion::env::{AbsoluteVar, EnvLen, RelativeVar, SharedEnv, UniqueEnv};
use pion::plicity::Plicity;
use pion::prim::Prim;
use pion::quote::QuoteEnv;
use pion::semantics::{ElimEnv, EvalOpts, Head, Value};
use pion::symbol::Symbol;
use pion::syntax::{Const, Expr, FunArg, FunParam};
use pion::zonk::{EvalEnv, ZonkEnv};

const FUEL: usize = 1000;

fn app<'a>(bump: &'a Bump, fun: Expr<'a>, arg: Expr<'a>) -> Expr<'a> {
    Expr::FunApp { fun: bump.alloc(fun), arg: FunArg::explicit(bump.alloc(arg)) }
}

fn prim2<'a>(bump: &'a Bump, prim: Prim, a: u32, b: u32) -> Expr<'a> {
    let first = app(bump, Expr::Prim(prim), Expr::Lit(Const::Int(a)));
    app(bump, first, Expr::Lit(Const::Int(b)))
}

fn fun<'a>(bump: &'a Bump, name: &'a str, ty: Expr<'a>, body: Expr<'a>) -> Expr<'a> {
    Expr::FunLit {
        param: FunParam::explicit(Some(Symbol::new(name)), bump.alloc(ty)),
        body: bump.alloc(body),
    }
}

fn var<'a>(index: usize) -> Expr<'a> {
    Expr::LocalVar(RelativeVar { index })
}

fn eval_closed<'a>(bump: &'a Bump, expr: &Expr<'a>, fuel: usize) -> Option<Value<'a>> {
    let metas = UniqueEnv::new();
    ElimEnv::new(bump, EvalOpts::default(), &metas).eval(SharedEnv::new(), expr, fuel)
}

fn int_of(value: Option<Value>) -> u32 {
    match value {
        Some(Value::Lit(Const::Int(n))) => n,
        other => panic!("{other:?}"),
    }
}

fn bool_of(value: Option<Value>) -> bool {
    match value {
        Some(Value::Lit(Const::Bool(b))) => b,
        other => panic!("{other:?}"),
    }
}

#[test]
fn arithmetic_on_literals() {
    let bump = Bump::new();
    assert_eq!(int_of(eval_closed(&bump, &prim2(&bump, Prim::Add, 3, 2), FUEL)), 5);
    assert_eq!(int_of(eval_closed(&bump, &prim2(&bump, Prim::Sub, 3, 2), FUEL)), 1);
    assert_eq!(int_of(eval_closed(&bump, &prim2(&bump, Prim::Mul, 3, 2), FUEL)), 6);
}

#[test]
fn arithmetic_wraps_at_two_to_the_32() {
    let bump = Bump::new();
    assert_eq!(int_of(eval_closed(&bump, &prim2(&bump, Prim::Add, u32::MAX, 1), FUEL)), 0);
    assert_eq!(int_of(eval_closed(&bump, &prim2(&bump, Prim::Sub, 0, 1), FUEL)), u32::MAX);
    assert_eq!(int_of(eval_closed(&bump, &prim2(&bump, Prim::Mul, 65536, 65536), FUEL)), 0);
    assert_eq!(
        int_of(eval_closed(&bump, &prim2(&bump, Prim::Mul, 65537, 65537), FUEL)),
        131073
    );
}

#[test]
fn comparisons_of_literals() {
    let bump = Bump::new();
    let cases = [
        (Prim::IntEq, [false, true, false]),
        (Prim::IntNe, [true, false, true]),
        (Prim::IntLt, [true, false, false]),
        (Prim::IntGt, [false, false, true]),
        (Prim::IntLte, [true, true, false]),
        (Prim::IntGte, [false, true, true]),
    ];
    for (prim, expected) in cases {
        let found = [
            bool_of(eval_closed(&bump, &prim2(&bump, prim, 1, 2), FUEL)),
            bool_of(eval_closed(&bump, &prim2(&bump, prim, 2, 2), FUEL)),
            bool_of(eval_closed(&bump, &prim2(&bump, prim, 3, 2), FUEL)),
        ];
        assert_eq!(found, expected, "{prim:?}");
    }
}

#[test]
fn a_primitive_that_lacks_an_argument_stays_as_it_is() {
    let bump = Bump::new();
    let partial = app(&bump, Expr::Prim(Prim::Add), Expr::Lit(Const::Int(1)));
    match eval_closed(&bump, &partial, FUEL) {
        Some(Value::Neutral(Head::Prim(Prim::Add), spine)) => {
            assert_eq!(spine.len(), EnvLen { len: 1 });
        }
        other => panic!("{other:?}"),
    }
}

#[test]
fn a_function_applied_is_its_body_for_the_argument() {
    let bump = Bump::new();
    let twice = fun(
        &bump,
        "x",
        Expr::Prim(Prim::Int),
        Expr::FunApp {
            fun: bump.alloc(app(&bump, Expr::Prim(Prim::Add), var(0))),
            arg: FunArg::explicit(bump.alloc(var(0))),
        },
    );
    let applied = app(&bump, twice, Expr::Lit(Const::Int(21)));
    assert_eq!(int_of(eval_closed(&bump, &applied, FUEL)), 42);
}

#[test]
fn a_let_is_its_body_for_the_value_bound() {
    let bump = Bump::new();
    let expr = Expr::Let {
        name: Some(Symbol::new("x")),
        ty: bump.alloc(Expr::Prim(Prim::Int)),
        init: bump.alloc(prim2(&bump, Prim::Add, 1, 2)),
        body: bump.alloc(Expr::FunApp {
            fun: bump.alloc(app(&bump, Expr::Prim(Prim::Mul), var(0))),
            arg: FunArg::explicit(bump.alloc(var(0))),
        }),
    };
    assert_eq!(int_of(eval_closed(&bump, &expr, FUEL)), 9);
}

#[test]
fn a_projection_takes_the_field_of_that_label() {
    let bump = Bump::new();
    let record = Expr::RecordLit(bump.alloc(vec![
        (Symbol::new("x"), Expr::Lit(Const::Int(1))),
        (Symbol::new("y"), Expr::Lit(Const::Bool(true))),
    ]));
    let x = Expr::RecordProj(bump.alloc(record), Symbol::new("x"));
    let y = Expr::RecordProj(bump.alloc(record), Symbol::new("y"));
    assert_eq!(int_of(eval_closed(&bump, &x, FUEL)), 1);
    assert!(bool_of(eval_closed(&bump, &y, FUEL)));
}

#[test]
fn a_match_on_a_literal_takes_its_case_or_the_default() {
    let bump = Bump::new();
    let on = |scrut: u32| Expr::MatchInt {
        scrut: bump.alloc(Expr::Lit(Const::Int(scrut))),
        cases: bump.alloc(vec![(1, Expr::Lit(Const::Int(10))), (4, Expr::Lit(Const::Int(40)))]),
        default: bump.alloc(Expr::Lit(Const::Int(0))),
    };
    assert_eq!(int_of(eval_closed(&bump, &on(1), FUEL)), 10);
    assert_eq!(int_of(eval_closed(&bump, &on(4), FUEL)), 40);
    assert_eq!(int_of(eval_closed(&bump, &on(2), FUEL)), 0);
    let choose = |cond: bool| Expr::MatchBool {
        cond: bump.alloc(Expr::Lit(Const::Bool(cond))),
        then_branch: bump.alloc(Expr::Lit(Const::Int(1))),
        else_branch: bump.alloc(Expr::Lit(Const::Int(2))),
    };
    assert_eq!(int_of(eval_closed(&bump, &choose(true), FUEL)), 1);
    assert_eq!(int_of(eval_closed(&bump, &choose(false), FUEL)), 2);
}

#[test]
fn the_error_term_absorbs_what_is_done_to_it() {
    let bump = Bump::new();
    let applied = app(&bump, Expr::Error, Expr::Lit(Const::Int(1)));
    assert!(matches!(eval_closed(&bump, &applied, FUEL), Some(Value::Neutral(Head::Error, _))));
    let unbound = var(3);
    assert!(matches!(eval_closed(&bump, &unbound, FUEL), Some(Value::Neutral(Head::Error, _))));
}

#[test]
fn evaluation_ends_where_the_fuel_ends() {
    let bump = Bump::new();
    let sum = prim2(&bump, Prim::Add, 3, 2);
    assert!(eval_closed(&bump, &sum, 0).is_none());
    assert!(eval_closed(&bump, &sum, 1).is_none());
    assert!(eval_closed(&bump, &sum, FUEL).is_some());
    assert!(eval_closed(&bump, &Expr::Lit(Const::Int(1)), 1).is_some());
}

#[test]
fn a_metavariable_has_the_value_of_its_solution() {
    let bump = Bump::new();
    let mut metas = UniqueEnv::new();
    metas.push(None);
    metas.push(Some(Value::Lit(Const::Int(7))));
    let env = ElimEnv::new(&bump, EvalOpts::default(), &metas);
    let solved = Expr::MetaVar(AbsoluteVar { level: 1 });
    let unsolved = Expr::MetaVar(AbsoluteVar { level: 0 });
    assert_eq!(int_of(env.eval(SharedEnv::new(), &solved, FUEL)), 7);
    assert!(matches!(
        env.eval(SharedEnv::new(), &unsolved, FUEL),
        Some(Value::Neutral(Head::MetaVar(AbsoluteVar { level: 0 }), _))
    ));
    let forced = env.force(Value::meta_var(AbsoluteVar { level: 1 }), FUEL);
    assert_eq!(int_of(forced), 7);
    let left = env.force(Value::meta_var(AbsoluteVar { level: 0 }), FUEL);
    assert!(matches!(left, Some(Value::Neutral(Head::MetaVar(AbsoluteVar { level: 0 }), _))));
}

#[test]
fn a_normal_form_is_read_back_as_it_was() {
    let bump = Bump::new();
    let metas = UniqueEnv::new();
    let int_to_int = Expr::FunType {
        param: FunParam::explicit(None, bump.alloc(Expr::Prim(Prim::Int))),
        body: bump.alloc(Expr::Prim(Prim::Int)),
    };
    let terms = [
        Expr::Lit(Const::Int(5)),
        Expr::Prim(Prim::Bool),
        fun(&bump, "x", Expr::Prim(Prim::Int), var(0)),
        fun(&bump, "f", int_to_int, fun(&bump, "x", Expr::Prim(Prim::Int), app(&bump, var(1), var(0)))),
        Expr::FunType {
            param: FunParam::new(
                Plicity::Implicit,
                Some(Symbol::new("A")),
                bump.alloc(Expr::Prim(Prim::Type)),
            ),
            body: bump.alloc(Expr::FunType {
                param: FunParam::explicit(None, bump.alloc(var(0))),
                body: bump.alloc(var(1)),
            }),
        },
        Expr::RecordType(bump.alloc(vec![
            (Symbol::new("A"), Expr::Prim(Prim::Type)),
            (Symbol::new("a"), var(0)),
        ])),
        Expr::RecordLit(bump.alloc(vec![
            (Symbol::new("x"), Expr::Lit(Const::Int(1))),
            (Symbol::new("y"), Expr::Lit(Const::Bool(false))),
        ])),
        app(&bump, Expr::Prim(Prim::List), Expr::Prim(Prim::Int)),
        Expr::list(&bump, Expr::Prim(Prim::Int), &vec![Expr::Lit(Const::Int(1))]),
        Expr::MetaVar(AbsoluteVar { level: 3 }),
        Expr::Error,
        fun(
            &bump,
            "b",
            Expr::Prim(Prim::Bool),
            Expr::MatchBool {
                cond: bump.alloc(var(0)),
                then_branch: bump.alloc(Expr::Lit(Const::Int(1))),
                else_branch: bump.alloc(Expr::Lit(Const::Int(0))),
            },
        ),
        fun(
            &bump,
            "n",
            Expr::Prim(Prim::Int),
            Expr::MatchInt {
                scrut: bump.alloc(var(0)),
                cases: bump.alloc(vec![(1, var(0)), (4, Expr::Lit(Const::Int(40)))]),
                default: bump.alloc(Expr::Lit(Const::Int(0))),
            },
        ),
        fun(
            &bump,
            "r",
            Expr::RecordType(bump.alloc(vec![(Symbol::new("x"), Expr::Prim(Prim::Int))])),
            Expr::RecordProj(bump.alloc(var(0)), Symbol::new("x")),
        ),
    ];
    for term in terms {
        let value = eval_closed(&bump, &term, FUEL).unwrap();
        let back = QuoteEnv::new(&bump, EnvLen::new(), &metas).quote(&value, FUEL).unwrap();
        assert!(back.alpha_eq(&term), "{term:?} came back as {back:?}");
    }
}

#[test]
fn a_redex_is_read_back_reduced() {
    let bump = Bump::new();
    let metas = UniqueEnv::new();
    let redex = app(&bump, fun(&bump, "x", Expr::Prim(Prim::Int), var(0)), Expr::Lit(Const::Int(1)));
    let value = eval_closed(&bump, &redex, FUEL).unwrap();
    let back = QuoteEnv::new(&bump, EnvLen::new(), &metas).quote(&value, FUEL).unwrap();
    assert!(matches!(back, Expr::Lit(Const::Int(1))));
    let env = EvalEnv::new(&bump, EvalOpts::default(), SharedEnv::new(), &metas);
    assert!(matches!(env.normalize(&redex, FUEL), Some(Expr::Lit(Const::Int(1)))));
}

#[test]
fn a_variable_is_read_back_as_the_index_of_its_level() {
    let bump = Bump::new();
    let metas = UniqueEnv::new();
    let quote = QuoteEnv::new(&bump, EnvLen { len: 3 }, &metas);
    let outermost = Value::local_var(AbsoluteVar { level: 0 });
    let innermost = Value::local_var(AbsoluteVar { level: 2 });
    assert!(matches!(
        quote.quote(&outermost, FUEL),
        Some(Expr::LocalVar(RelativeVar { index: 2 }))
    ));
    assert!(matches!(
        quote.quote(&innermost, FUEL),
        Some(Expr::LocalVar(RelativeVar { index: 0 }))
    ));
}

#[test]
fn zonking_puts_solutions_in_and_leaves_the_rest() {
    let bump = Bump::new();
    let mut metas = UniqueEnv::new();
    metas.push(Some(Value::Prim(Prim::Int)));
    metas.push(None);
    let solved = Expr::MetaVar(AbsoluteVar { level: 0 });
    let unsolved = Expr::MetaVar(AbsoluteVar { level: 1 });
    let term = fun(&bump, "x", solved, app(&bump, unsolved, var(0)));
    let zonk = ZonkEnv::new(&bump, SharedEnv::new(), &metas);
    match zonk.zonk(&term, FUEL) {
        Some(Expr::FunLit { param, body }) => {
            assert!(matches!(param.ty, Expr::Prim(Prim::Int)));
            match body {
                Expr::FunApp { fun, arg } => {
                    assert!(matches!(fun, Expr::MetaVar(AbsoluteVar { level: 1 })));
                    assert!(matches!(arg.expr, Expr::LocalVar(RelativeVar { index: 0 })));
                }
                other => panic!("{other:?}"),
            }
        }
        other => panic!("{other:?}"),
    }
    let plain = fun(&bump, "x", Expr::Prim(Prim::Int), var(0));
    assert!(zonk.zonk(&plain, FUEL).unwrap().alpha_eq(&plain));
}

#[test]
fn a_solved_metavariable_that_is_applied_is_reduced_by_zonking() {
    let bump = Bump::new();
    let mut metas = UniqueEnv::new();
    let identity = fun(&bump, "x", Expr::Prim(Prim::Int), var(0));
    let value = ElimEnv::new(&bump, EvalOpts::default(), &UniqueEnv::new())
        .eval(SharedEnv::new(), &identity, FUEL)
        .unwrap();
    metas.push(Some(value));
    let applied = app(&bump, Expr::MetaVar(AbsoluteVar { level: 0 }), Expr::Lit(Const::Int(3)));
    let zonk = ZonkEnv::new(&bump, SharedEnv::new(), &metas);
    assert!(matches!(zonk.zonk(&applied, FUEL), Some(Expr::Lit(Const::Int(3)))));
}

fn list_of<'a>(bump: &'a Bump, items: &[u32]) -> Expr<'a> {
    let items = items.iter().map(|n| Expr::Lit(Const::Int(*n))).collect();
    Expr::list(bump, Expr::Prim(Prim::Int), &items)
}

fn on_list<'a>(bump: &'a Bump, prim: Prim, args: &[Expr<'a>]) -> Expr<'a> {
    let mut term = Expr::FunApp {
        fun: bump.alloc(Expr::Prim(prim)),
        arg: FunArg::implicit(bump.alloc(Expr::Prim(Prim::Int))),
    };
    for arg in args {
        term = app(bump, term, *arg);
    }
    term
}

fn read_back<'a>(bump: &'a Bump, expr: &Expr<'a>) -> Expr<'a> {
    let metas = UniqueEnv::new();
    let value = eval_closed(bump, expr, FUEL).unwrap();
    QuoteEnv::new(bump, EnvLen::new(), &metas).quote(&value, FUEL).unwrap()
}

#[test]
fn the_length_of_a_list_literal() {
    let bump = Bump::new();
    assert_eq!(int_of(eval_closed(&bump, &on_list(&bump, Prim::Len, &[list_of(&bump, &[])]), FUEL)), 0);
    let three = on_list(&bump, Prim::Len, &[list_of(&bump, &[7, 8, 9])]);
    assert_eq!(int_of(eval_closed(&bump, &three, FUEL)), 3);
}

#[test]
fn push_puts_an_item_at_the_end() {
    let bump = Bump::new();
    let pushed = on_list(&bump, Prim::Push, &[list_of(&bump, &[1, 2]), Expr::Lit(Const::Int(3))]);
    assert!(read_back(&bump, &pushed).alpha_eq(&list_of(&bump, &[1, 2, 3])));
    let onto_empty = on_list(&bump, Prim::Push, &[list_of(&bump, &[]), Expr::Lit(Const::Int(3))]);
    assert!(read_back(&bump, &onto_empty).alpha_eq(&list_of(&bump, &[3])));
}

#[test]
fn append_puts_the_second_list_after_the_first() {
    let bump = Bump::new();
    let both = on_list(&bump, Prim::Append, &[list_of(&bump, &[1, 2]), list_of(&bump, &[3, 4, 5])]);
    assert!(read_back(&bump, &both).alpha_eq(&list_of(&bump, &[1, 2, 3, 4, 5])));
    let left = on_list(&bump, Prim::Append, &[list_of(&bump, &[1, 2]), list_of(&bump, &[])]);
    assert!(read_back(&bump, &left).alpha_eq(&list_of(&bump, &[1, 2])));
    let right = on_list(&bump, Prim::Append, &[list_of(&bump, &[]), list_of(&bump, &[3])]);
    assert!(read_back(&bump, &right).alpha_eq(&list_of(&bump, &[3])));
}

#[test]
fn a_list_primitive_waits_where_its_list_is_no_literal() {
    let bump = Bump::new();
    let waiting = on_list(&bump, Prim::Len, &[Expr::Error]);
    assert!(matches!(eval_closed(&bump, &waiting, FUEL), Some(Value::Neutral(Head::Prim(Prim::Len), _))));
    let short = on_list(&bump, Prim::Push, &[list_of(&bump, &[1])]);
    assert!(matches!(eval_closed(&bump, &short, FUEL), Some(Value::Neutral(Head::Prim(Prim::Push), _))));
}
