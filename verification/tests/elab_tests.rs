//! The state of an elaboration: the variables in scope, the metavariables,
//! and what is reported.

use bumpalo::Bump;
use pion::diagnostic::{Diagnostic, Label, Message, Severity};
use pion::elab::{Elaborator, LocalEnv, LocalInfo, MetaEnv, MetaSource, DEFAULT_FUEL};
use pion::env::{AbsoluteVar, EnvLen, RelativeVar};
use pion::prim::Prim;
use pion::semantics::{Head, Value};
use pion::source::TextRange;
use pion::symbol::Symbol;
use pion::syntax::{Const, Expr};

fn text_of(message: &Message) -> String {
    message.text.clone()
}

#[test]
fn a_name_is_the_innermost_variable_of_that_name() {
    let bump = Bump::new();
    let mut env = LocalEnv::new(&bump);
    env.push_param(Some(Symbol::new("x")), Value::Prim(Prim::Int));
    env.push_param(Some(Symbol::new("y")), Value::Prim(Prim::Bool));
    env.push_param(None, Value::Prim(Prim::Bool));
    env.push_let(Some(Symbol::new("x")), Value::Prim(Prim::Bool), Value::Lit(Const::Bool(true)));
    assert_eq!(env.len(), EnvLen { len: 4 });
    assert_eq!(env.lookup(Symbol::new("x")), Some(RelativeVar { index: 0 }));
    assert_eq!(env.lookup(Symbol::new("y")), Some(RelativeVar { index: 2 }));
    assert_eq!(env.lookup(Symbol::new("z")), None);
    env.pop();
    assert_eq!(env.lookup(Symbol::new("x")), Some(RelativeVar { index: 2 }));
    env.truncate(EnvLen { len: 0 });
    assert_eq!(env.lookup(Symbol::new("x")), None);
    assert_eq!(env.len(), EnvLen { len: 0 });
}

#[test]
fn a_parameter_stands_for_itself_and_a_let_for_its_value() {
    let bump = Bump::new();
    let mut env = LocalEnv::new(&bump);
    assert!(matches!(
        env.next_var(),
        Value::Neutral(Head::LocalVar(AbsoluteVar { level: 0 }), _)
    ));
    env.push_param(Some(Symbol::new("x")), Value::Prim(Prim::Int));
    env.push_let(Some(Symbol::new("y")), Value::Prim(Prim::Int), Value::Lit(Const::Int(3)));
    assert_eq!(env.infos.elems, vec![LocalInfo::Param, LocalInfo::Let]);
    assert!(matches!(
        env.values.get_relative(RelativeVar { index: 1 }),
        Some(Value::Neutral(Head::LocalVar(AbsoluteVar { level: 0 }), _))
    ));
    assert!(matches!(
        env.values.get_relative(RelativeVar { index: 0 }),
        Some(Value::Lit(Const::Int(3)))
    ));
    assert!(matches!(
        env.next_var(),
        Value::Neutral(Head::LocalVar(AbsoluteVar { level: 2 }), _)
    ));
}

#[test]
fn where_a_metavariable_came_from() {
    let range = TextRange::new(3, 7);
    let named = Some(Symbol::new("x"));
    let sources = [
        (MetaSource::PatType { range, name: named }, "type of variable `x`"),
        (MetaSource::PatType { range, name: None }, "type of placeholder pattern"),
        (MetaSource::HoleType { range }, "type of hole"),
        (MetaSource::HoleExpr { range }, "expression to solve hole"),
        (MetaSource::ImplicitArg { range, name: named }, "implicit argument `x`"),
        (MetaSource::ImplicitArg { range, name: None }, "implicit argument"),
        (MetaSource::ListElemType { range }, "element type of empty list"),
    ];
    for (source, description) in sources {
        assert_eq!(source.range(), range);
        assert_eq!(source.description(), description);
    }
}

#[test]
fn a_metavariable_is_made_without_a_solution() {
    let mut metas = MetaEnv::new();
    assert_eq!(metas.len(), EnvLen { len: 0 });
    metas.push(MetaSource::HoleType { range: TextRange::new(0, 1) }, Value::Prim(Prim::Type));
    assert_eq!(metas.len(), EnvLen { len: 1 });
    match metas.get(AbsoluteVar { level: 0 }) {
        Some((MetaSource::HoleType { range }, Value::Prim(Prim::Type), None)) => {
            assert_eq!(range, TextRange::new(0, 1));
        }
        other => panic!("{other:?}"),
    }
    assert!(metas.get(AbsoluteVar { level: 1 }).is_none());
}

#[test]
fn an_elaboration_begins_with_nothing() {
    let bump = Bump::new();
    let elab = Elaborator::new(&bump, "text", 7);
    assert_eq!(elab.file_id, 7);
    assert_eq!(elab.text, "text");
    assert_eq!(elab.fuel, DEFAULT_FUEL);
    assert!(elab.diagnostics.is_empty());
    assert_eq!(elab.local_env.len(), EnvLen { len: 0 });
    assert_eq!(elab.meta_env.len(), EnvLen { len: 0 });
}

#[test]
fn the_metavariables_without_a_solution_are_reported_in_order() {
    let bump = Bump::new();
    let mut elab = Elaborator::new(&bump, "_ _ _", 2);
    elab.meta_env.push(MetaSource::HoleType { range: TextRange::new(0, 1) }, Value::Prim(Prim::Type));
    elab.meta_env.push(MetaSource::HoleExpr { range: TextRange::new(2, 3) }, Value::Prim(Prim::Int));
    let name = Some(Symbol::new("A"));
    elab.meta_env.push(
        MetaSource::ImplicitArg { range: TextRange::new(4, 5), name },
        Value::Prim(Prim::Type),
    );
    elab.meta_env.values.set_absolute(AbsoluteVar { level: 1 }, Some(Value::Lit(Const::Int(1))));
    elab.report_unsolved_metas();
    assert_eq!(elab.diagnostics.len(), 2);
    let first = &elab.diagnostics[0];
    assert_eq!(first.severity, Severity::Error);
    assert_eq!(text_of(&first.message), "Unsolved metavariable: ?0");
    assert_eq!(first.primary_label.file_id, 2);
    assert_eq!(first.primary_label.range, TextRange::new(0, 1));
    assert_eq!(
        text_of(first.primary_label.message.as_ref().unwrap()),
        "could not infer type of hole"
    );
    assert!(first.secondary_labels.is_empty());
    let second = &elab.diagnostics[1];
    assert_eq!(text_of(&second.message), "Unsolved metavariable: ?2");
    assert_eq!(second.primary_label.range, TextRange::new(4, 5));
    assert_eq!(
        text_of(second.primary_label.message.as_ref().unwrap()),
        "could not infer implicit argument `A`"
    );
    elab.report_unsolved_metas();
    assert_eq!(elab.diagnostics.len(), 4);
}

#[test]
fn a_fresh_metavariable_is_applied_to_the_parameters_in_scope() {
    let bump = Bump::new();
    let mut elab = Elaborator::new(&bump, "", 0);
    elab.local_env.push_param(Some(Symbol::new("x")), Value::Prim(Prim::Int));
    elab.local_env.push_let(
        Some(Symbol::new("y")),
        Value::Prim(Prim::Int),
        Value::Lit(Const::Int(1)),
    );
    elab.local_env.push_param(Some(Symbol::new("z")), Value::Prim(Prim::Int));
    let source = MetaSource::HoleExpr { range: TextRange::new(0, 0) };
    let term = elab.push_unsolved_expr(source, Value::Prim(Prim::Int));
    assert_eq!(elab.meta_env.len(), EnvLen { len: 1 });
    match term {
        Expr::FunApp { fun, arg } => {
            assert!(matches!(arg.expr, Expr::LocalVar(RelativeVar { index: 0 })));
            match fun {
                Expr::FunApp { fun, arg } => {
                    assert!(matches!(fun, Expr::MetaVar(AbsoluteVar { level: 0 })));
                    assert!(matches!(arg.expr, Expr::LocalVar(RelativeVar { index: 2 })));
                }
                other => panic!("{other:?}"),
            }
        }
        other => panic!("{other:?}"),
    }
    let closed = Elaborator::new(&bump, "", 0).push_unsolved_expr(source, Value::Prim(Prim::Int));
    assert!(matches!(closed, Expr::MetaVar(AbsoluteVar { level: 0 })));
}

#[test]
fn a_diagnostic_is_built_up_from_its_parts() {
    let label = Label::new(1, TextRange::new(2, 5)).with_message(Message::text("here"));
    let other = Label::new(1, TextRange::new(7, 9));
    let message = Message::text("expected `").then_text("Int").then_text("`");
    let diagnostic = Diagnostic::warning(message, label).with_secondary_label(other);
    assert_eq!(diagnostic.severity, Severity::Warning);
    assert_eq!(text_of(&diagnostic.message), "expected `Int`");
    assert_eq!(diagnostic.primary_label.range, TextRange::new(2, 5));
    assert_eq!(text_of(diagnostic.primary_label.message.as_ref().unwrap()), "here");
    assert_eq!(diagnostic.secondary_labels.len(), 1);
    assert_eq!(diagnostic.secondary_labels[0].range, TextRange::new(7, 9));
    assert!(diagnostic.secondary_labels[0].message.is_none());
    let error = Diagnostic::error(Message::text("no"), Label::new(0, TextRange::new(0, 0)));
    assert_eq!(error.severity, Severity::Error);
    let bump = Bump::new();
    let mut elab = Elaborator::new(&bump, "", 0);
    elab.report_diagnostic(error);
    assert_eq!(elab.diagnostics.len(), 1);
}

#[test]
fn a_literal_elaborates_to_its_constant() {
    let bump = Bump::new();
    let mut elab = Elaborator::new(&bump, "true 0x10 12x", 0);
    let (term, ty) = elab.synth_const(TextRange::new(0, 4), pion::surface::Const::Bool(true));
    assert!(matches!(term, Expr::Lit(Const::Bool(true))));
    assert!(matches!(ty, Value::Prim(Prim::Bool)));
    let (term, ty) = elab.synth_const(TextRange::new(5, 9), pion::surface::Const::HexInt);
    assert!(matches!(term, Expr::Lit(Const::Int(16))));
    assert!(matches!(ty, Value::Prim(Prim::Int)));
    assert!(elab.diagnostics.is_empty());
    let (term, ty) = elab.synth_const(TextRange::new(10, 13), pion::surface::Const::DecInt);
    assert!(matches!(term, Expr::Error));
    assert!(matches!(ty, Value::Neutral(Head::Error, _)));
    assert_eq!(elab.diagnostics.len(), 1);
    assert_eq!(text_of(&elab.diagnostics[0].message), "Invalid integer literal");
    assert_eq!(elab.diagnostics[0].primary_label.range, TextRange::new(10, 13));
}

#[test]
fn a_name_elaborates_to_a_variable_before_a_primitive() {
    let bump = Bump::new();
    let mut elab = Elaborator::new(&bump, "", 0);
    let (term, ty) = elab.synth_var(TextRange::new(0, 3), Symbol::new("Int"));
    assert!(matches!(term, Expr::Prim(Prim::Int)));
    assert!(matches!(ty, Value::Prim(Prim::Type)));
    elab.enter_param(Some(Symbol::new("Int")), Value::Prim(Prim::Bool));
    elab.enter_let(Some(Symbol::new("y")), Value::Prim(Prim::Int), Value::Lit(Const::Int(1)));
    let (term, ty) = elab.synth_var(TextRange::new(0, 3), Symbol::new("Int"));
    assert!(matches!(term, Expr::LocalVar(RelativeVar { index: 1 })));
    assert!(matches!(ty, Value::Prim(Prim::Bool)));
    elab.leave();
    elab.leave();
    assert_eq!(elab.local_env.len(), EnvLen { len: 0 });
    let (term, _) = elab.synth_var(TextRange::new(4, 8), Symbol::new("list"));
    assert!(matches!(term, Expr::Error));
    assert_eq!(elab.diagnostics.len(), 1);
    assert_eq!(text_of(&elab.diagnostics[0].message), "Unbound variable: `list`");
    assert_eq!(elab.diagnostics[0].primary_label.range, TextRange::new(4, 8));
}

#[test]
fn a_term_is_held_to_a_type_that_unifies_with_its_own() {
    let bump = Bump::new();
    let mut elab = Elaborator::new(&bump, "", 0);
    let term = Expr::Lit(Const::Int(1));
    let held = elab.hold_to(TextRange::new(0, 1), term, &Value::Prim(Prim::Int), &Value::Prim(Prim::Int));
    assert!(matches!(held, Expr::Lit(Const::Int(1))));
    assert!(elab.diagnostics.is_empty());
    let held = elab.hold_to(TextRange::new(2, 3), term, &Value::Prim(Prim::Int), &Value::Prim(Prim::Bool));
    assert!(matches!(held, Expr::Error));
    assert_eq!(elab.diagnostics.len(), 1);
    assert_eq!(
        text_of(&elab.diagnostics[0].message),
        "Type mismatch: expected `Bool`, found `Int`"
    );
    assert_eq!(elab.diagnostics[0].primary_label.range, TextRange::new(2, 3));
    elab.fuel = 0;
    let held = elab.hold_to(TextRange::new(4, 5), term, &Value::Prim(Prim::Int), &Value::Prim(Prim::Int));
    assert!(matches!(held, Expr::Error));
    assert_eq!(text_of(&elab.diagnostics[1].message), "Evaluation limit reached");
}

#[test]
fn implicit_parameters_are_filled_with_fresh_metavariables() {
    let bump = Bump::new();
    let mut elab = Elaborator::new(&bump, "", 0);
    let (fix, fix_ty) = elab.synth_var(TextRange::new(0, 3), Symbol::new("fix"));
    let (applied, ty) = elab.insert_implicit_apps(TextRange::new(0, 3), fix, fix_ty);
    assert_eq!(elab.meta_env.len(), EnvLen { len: 2 });
    match applied {
        Expr::FunApp { fun, arg } => {
            assert_eq!(arg.plicity, pion::plicity::Plicity::Implicit);
            assert!(matches!(arg.expr, Expr::MetaVar(AbsoluteVar { level: 1 })));
            match fun {
                Expr::FunApp { fun, arg } => {
                    assert!(matches!(fun, Expr::Prim(Prim::Fix)));
                    assert!(matches!(arg.expr, Expr::MetaVar(AbsoluteVar { level: 0 })));
                }
                other => panic!("{other:?}"),
            }
        }
        other => panic!("{other:?}"),
    }
    match ty {
        Value::FunType { param, .. } => assert_eq!(param.plicity, pion::plicity::Plicity::Explicit),
        other => panic!("{other:?}"),
    }
    let (same, ty) = elab.insert_implicit_apps(
        TextRange::new(0, 1),
        Expr::Lit(Const::Int(1)),
        Value::Prim(Prim::Int),
    );
    assert!(matches!(same, Expr::Lit(Const::Int(1))));
    assert!(matches!(ty, Value::Prim(Prim::Int)));
    assert_eq!(elab.meta_env.len(), EnvLen { len: 2 });
}

#[test]
fn a_fresh_type_is_a_metavariable_of_type_type() {
    let bump = Bump::new();
    let mut elab = Elaborator::new(&bump, "", 0);
    let range = TextRange::new(0, 1);
    let ty = elab.fresh_type(range, MetaSource::HoleType { range });
    assert!(matches!(ty, Value::Neutral(Head::MetaVar(AbsoluteVar { level: 0 }), _)));
    let term = elab.fresh_expr(MetaSource::HoleExpr { range }, ty);
    assert!(matches!(term, Expr::MetaVar(AbsoluteVar { level: 1 })));
    assert!(matches!(elab.meta_env.types.elems[0], Value::Prim(Prim::Type)));
    assert!(matches!(
        elab.meta_env.types.elems[1],
        Value::Neutral(Head::MetaVar(AbsoluteVar { level: 0 }), _)
    ));
    assert!(elab.diagnostics.is_empty());
}

#[test]
fn what_needs_more_steps_than_allowed_is_reported() {
    let bump = Bump::new();
    let mut elab = Elaborator::new(&bump, "", 0);
    elab.fuel = 0;
    let range = TextRange::new(3, 4);
    let value = elab.eval_or_report(range, &Expr::Lit(Const::Int(1)));
    assert!(matches!(value, Value::Neutral(Head::Error, _)));
    let term = elab.quote_or_report(range, &Value::Lit(Const::Int(1)));
    assert!(matches!(term, Expr::Error));
    assert_eq!(elab.diagnostics.len(), 2);
    for diagnostic in &elab.diagnostics {
        assert_eq!(text_of(&diagnostic.message), "Evaluation limit reached");
        assert_eq!(diagnostic.primary_label.range, range);
    }
    elab.fuel = DEFAULT_FUEL;
    let value = elab.eval_or_report(range, &Expr::Lit(Const::Int(1)));
    assert!(matches!(value, Value::Lit(Const::Int(1))));
    let forced = elab.force_or_report(range, &value);
    assert!(matches!(forced, Value::Lit(Const::Int(1))));
    assert_eq!(elab.diagnostics.len(), 2);
}

#[test]
fn concluding_shows_the_term_and_its_type_and_reports_what_is_left_open() {
    let bump = Bump::new();
    let mut elab = Elaborator::new(&bump, "_", 0);
    let range = TextRange::new(0, 1);
    let ty = elab.fresh_type(range, MetaSource::HoleType { range });
    let open = elab.fresh_type(range, MetaSource::HoleType { range });
    assert_eq!(elab.unify(&ty, &Value::Prim(Prim::Int)), Ok(()));
    let sum = Expr::FunApp {
        fun: &Expr::FunApp {
            fun: &Expr::Prim(Prim::Add),
            arg: pion::syntax::FunArg::explicit(&Expr::Lit(Const::Int(1))),
        },
        arg: pion::syntax::FunArg::explicit(&Expr::Lit(Const::Int(2))),
    };
    let (term, shown_ty) = elab.conclude(range, sum, &ty, false);
    assert!(term.alpha_eq(&sum));
    assert!(matches!(shown_ty, Expr::Prim(Prim::Int)));
    assert_eq!(elab.diagnostics.len(), 1);
    assert_eq!(text_of(&elab.diagnostics[0].message), "Unsolved metavariable: ?1");
    let (term, _) = elab.conclude(range, sum, &open, true);
    assert!(matches!(term, Expr::Lit(Const::Int(3))));
    assert_eq!(elab.diagnostics.len(), 2);
    assert!(matches!(elab.show(&Expr::MetaVar(AbsoluteVar { level: 0 })), Expr::Prim(Prim::Int)));
    assert!(matches!(
        elab.show(&Expr::MetaVar(AbsoluteVar { level: 1 })),
        Expr::MetaVar(AbsoluteVar { level: 1 })
    ));
}

#[test]
fn a_term_is_printed_with_its_solutions_and_the_names_in_scope() {
    let bump = Bump::new();
    let mut elab = Elaborator::new(&bump, "", 0);
    elab.enter_param(Some(Symbol::new("x")), Value::Prim(Prim::Int));
    elab.meta_env.push(MetaSource::HoleType { range: TextRange::new(0, 1) }, Value::Prim(Prim::Type));
    elab.meta_env.push(MetaSource::HoleType { range: TextRange::new(0, 1) }, Value::Prim(Prim::Type));
    elab.meta_env.values.set_absolute(AbsoluteVar { level: 0 }, Some(Value::Prim(Prim::Bool)));
    let term = Expr::FunApp {
        fun: &Expr::FunApp {
            fun: &Expr::MetaVar(AbsoluteVar { level: 1 }),
            arg: pion::syntax::FunArg::explicit(&Expr::MetaVar(AbsoluteVar { level: 0 })),
        },
        arg: pion::syntax::FunArg::explicit(&Expr::LocalVar(RelativeVar { index: 0 })),
    };
    assert_eq!(elab.pretty(&term), "?1 Bool x");
    assert_eq!(elab.pretty(&Expr::LocalVar(RelativeVar { index: 1 })), "#error");
    elab.fuel = 0;
    assert_eq!(elab.pretty(&Expr::MetaVar(AbsoluteVar { level: 0 })), "#error");
}

#[test]
fn a_name_is_copied_into_the_arena() {
    let bump = Bump::new();
    let elab = Elaborator::new(&bump, "", 0);
    let interned = {
        let text = String::from("name");
        elab.intern(Symbol::new(&text))
    };
    assert_eq!(interned.as_str(), "name");
    assert_eq!(elab.intern(Symbol::new("")).as_str(), "");
}

#[test]
fn an_implicit_argument_comes_from_the_parameter_that_it_fills() {
    let bump = Bump::new();
    let mut elab = Elaborator::new(&bump, "", 0);
    let range = TextRange::new(0, 3);
    let (fix, fix_ty) = elab.synth_var(range, Symbol::new("fix"));
    elab.insert_implicit_apps(range, fix, fix_ty);
    match elab.meta_env.get(AbsoluteVar { level: 0 }) {
        Some((MetaSource::ImplicitArg { range: at, name: Some(name) }, ty, None)) => {
            assert_eq!(at, range);
            assert_eq!(name.as_str(), "A");
            assert!(matches!(ty, Value::Prim(Prim::Type)));
        }
        other => panic!("{other:?}"),
    }
    match elab.meta_env.get(AbsoluteVar { level: 1 }) {
        Some((MetaSource::ImplicitArg { range: at, name: Some(name) }, ty, None)) => {
            assert_eq!(at, range);
            assert_eq!(name.as_str(), "B");
            assert!(matches!(ty, Value::Prim(Prim::Type)));
        }
        other => panic!("{other:?}"),
    }
    assert!(elab.diagnostics.is_empty());
}

#[test]
fn no_implicit_argument_is_inserted_where_no_step_is_allowed() {
    let bump = Bump::new();
    let mut elab = Elaborator::new(&bump, "", 0);
    let range = TextRange::new(0, 3);
    let (fix, fix_ty) = elab.synth_var(range, Symbol::new("fix"));
    elab.fuel = 0;
    let (same, ty) = elab.insert_implicit_apps(range, fix, fix_ty);
    assert!(matches!(same, Expr::Prim(Prim::Fix)));
    match ty {
        Value::FunType { param, .. } => assert_eq!(param.plicity, pion::plicity::Plicity::Implicit),
        other => panic!("{other:?}"),
    }
    assert_eq!(elab.meta_env.len(), EnvLen { len: 0 });
    assert!(elab.diagnostics.is_empty());
}

#[test]
fn converting_holds_the_type_of_the_term_to_the_type_asked_for() {
    let bump = Bump::new();
    let mut elab = Elaborator::new(&bump, "", 0);
    let one = Expr::Lit(Const::Int(1));
    let same = elab.convert(TextRange::new(0, 1), one, Value::Prim(Prim::Int), &Value::Prim(Prim::Int));
    assert!(matches!(same, Expr::Lit(Const::Int(1))));
    assert!(elab.diagnostics.is_empty());
    let other = elab.convert(TextRange::new(2, 3), one, Value::Prim(Prim::Int), &Value::Prim(Prim::Bool));
    assert!(matches!(other, Expr::Error));
    assert_eq!(elab.diagnostics.len(), 1);
    assert_eq!(
        text_of(&elab.diagnostics[0].message),
        "Type mismatch: expected `Bool`, found `Int`"
    );
    assert_eq!(elab.diagnostics[0].primary_label.range, TextRange::new(2, 3));
    assert_eq!(elab.meta_env.len(), EnvLen { len: 0 });
}

#[test]
fn converting_to_a_function_type_fills_the_implicit_parameters_first() {
    let bump = Bump::new();
    let mut elab = Elaborator::new(&bump, "", 0);
    let range = TextRange::new(0, 3);
    let (fix, fix_ty) = elab.synth_var(range, Symbol::new("fix"));
    let (_, to) = elab.insert_implicit_apps(range, fix, fix_ty);
    assert_eq!(elab.meta_env.len(), EnvLen { len: 2 });
    let converted = elab.convert(range, fix, fix_ty, &to);
    assert_eq!(elab.meta_env.len(), EnvLen { len: 4 });
    assert!(elab.diagnostics.is_empty());
    match converted {
        Expr::FunApp { fun, arg } => {
            assert_eq!(arg.plicity, pion::plicity::Plicity::Implicit);
            assert!(matches!(arg.expr, Expr::MetaVar(AbsoluteVar { level: 3 })));
            match fun {
                Expr::FunApp { fun, arg } => {
                    assert!(matches!(fun, Expr::Prim(Prim::Fix)));
                    assert_eq!(arg.plicity, pion::plicity::Plicity::Implicit);
                    assert!(matches!(arg.expr, Expr::MetaVar(AbsoluteVar { level: 2 })));
                }
                other => panic!("{other:?}"),
            }
        }
        other => panic!("{other:?}"),
    }
    // Held to a type that takes an implicit parameter, the term stays as
    // it is: the two types are the same.
    let kept = elab.convert(range, fix, fix_ty, &fix_ty);
    assert!(matches!(kept, Expr::Prim(Prim::Fix)));
    assert_eq!(elab.meta_env.len(), EnvLen { len: 4 });
    assert!(elab.diagnostics.is_empty());
}

#[test]
fn a_mismatch_shows_the_types_with_the_solutions_in_place() {
    let bump = Bump::new();
    let mut elab = Elaborator::new(&bump, "", 0);
    elab.meta_env.push(MetaSource::HoleType { range: TextRange::new(0, 1) }, Value::Prim(Prim::Type));
    elab.meta_env.values.set_absolute(AbsoluteVar { level: 0 }, Some(Value::Prim(Prim::Int)));
    let solved = Value::Neutral(Head::MetaVar(AbsoluteVar { level: 0 }), pion::env::SharedEnv::Empty);
    let held = elab.hold_to(TextRange::new(2, 3), Expr::Lit(Const::Int(1)), &solved, &Value::Prim(Prim::Bool));
    assert!(matches!(held, Expr::Error));
    assert_eq!(elab.diagnostics.len(), 1);
    assert_eq!(
        text_of(&elab.diagnostics[0].message),
        "Type mismatch: expected `Bool`, found `Int`"
    );
}
