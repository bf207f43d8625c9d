//! Core terms as the user sees them.

use bumpalo::Bump;
use pion::env::{AbsoluteVar, RelativeVar, UniqueEnv};
use pion::plicity::Plicity;
use pion::prim::Prim;
use pion::printer::{Doc, Printer};
use pion::symbol::Symbol;
use pion::syntax::{Const, Expr, FunArg, FunParam};
use pion::unelab::{Config, Prec, Unelaborator};

fn show_with(expr: &Expr, config: Config, width: usize) -> String {
    let bump = Bump::new();
    let unelaborator = Unelaborator::new(Printer::new(&bump), config);
    let doc = unelaborator.expr(&mut UniqueEnv::new(), expr);
    doc.pretty(width)
}

fn show(expr: &Expr) -> String {
    show_with(expr, Config::default(), 80)
}

const V0: Expr = Expr::LocalVar(RelativeVar { index: 0 });
const V1: Expr = Expr::LocalVar(RelativeVar { index: 1 });
const V2: Expr = Expr::LocalVar(RelativeVar { index: 2 });

const INT: Expr = Expr::Prim(Prim::Int);
const BOOL: Expr = Expr::Prim(Prim::Bool);
const TYPE: Expr = Expr::Prim(Prim::Type);

#[test]
fn atoms_print_as_they_are_written() {
    assert_eq!(show(&Expr::Lit(Const::Int(42))), "42");
    assert_eq!(show(&Expr::Lit(Const::Bool(true))), "true");
    assert_eq!(show(&Expr::Lit(Const::Bool(false))), "false");
    assert_eq!(show(&Expr::Prim(Prim::BoolRec)), "bool_rec");
    assert_eq!(show(&Expr::Error), "#error");
    assert_eq!(show(&Expr::MetaVar(AbsoluteVar { level: 3 })), "?3");
}

#[test]
fn a_function_type_whose_variable_is_not_used_is_an_arrow() {
    let arrow = Expr::FunType { param: FunParam::explicit(Some(Symbol::new("x")), &INT), body: &BOOL };
    assert_eq!(show(&arrow), "Int -> Bool");
    let implicit = Expr::FunType { param: FunParam::implicit(None, &INT), body: &BOOL };
    assert_eq!(show(&implicit), "@Int -> Bool");
    let used = Expr::FunType {
        param: FunParam::explicit(Some(Symbol::new("A")), &TYPE),
        body: &Expr::LocalVar(RelativeVar { index: 0 }),
    };
    assert_eq!(show(&used), "forall (A : Type) -> A");
}

#[test]
fn arrows_can_be_switched_off() {
    let arrow = Expr::FunType { param: FunParam::explicit(Some(Symbol::new("x")), &INT), body: &BOOL };
    let config = Config { print_names: true, fun_arrows: false };
    assert_eq!(show_with(&arrow, config, 80), "forall (x : Int) -> Bool");
}

#[test]
fn the_left_of_an_arrow_is_in_parentheses_where_it_is_a_function_type() {
    let int_to_bool = Expr::FunType { param: FunParam::explicit(None, &INT), body: &BOOL };
    let left = Expr::FunType { param: FunParam::explicit(None, &int_to_bool), body: &INT };
    let right = Expr::FunType { param: FunParam::explicit(None, &INT), body: &int_to_bool };
    assert_eq!(show(&left), "(Int -> Bool) -> Int");
    assert_eq!(show(&right), "Int -> Int -> Bool");
}

#[test]
fn parameters_and_arguments_run_together() {
    let body = Expr::FunApp {
        fun: &Expr::FunApp { fun: &Expr::Prim(Prim::Add), arg: FunArg::explicit(&V1) },
        arg: FunArg::explicit(&V0),
    };
    let inner = Expr::FunLit { param: FunParam::explicit(Some(Symbol::new("y")), &INT), body: &body };
    let outer = Expr::FunLit { param: FunParam::explicit(Some(Symbol::new("x")), &INT), body: &inner };
    assert_eq!(show(&outer), "fun (x : Int) (y : Int) => add x y");
    let applied = Expr::FunApp {
        fun: &Expr::FunApp { fun: &outer, arg: FunArg::explicit(&Expr::Lit(Const::Int(1))) },
        arg: FunArg::new(Plicity::Implicit, &Expr::Lit(Const::Int(2))),
    };
    assert_eq!(show(&applied), "(fun (x : Int) (y : Int) => add x y) 1 @2");
}

#[test]
fn an_argument_that_is_an_application_is_in_parentheses() {
    let inner = Expr::FunApp { fun: &Expr::Prim(Prim::Len), arg: FunArg::explicit(&Expr::Error) };
    let outer = Expr::FunApp { fun: &Expr::Prim(Prim::Refl), arg: FunArg::explicit(&inner) };
    assert_eq!(show(&outer), "refl (len #error)");
}

#[test]
fn a_variable_without_a_name_prints_as_its_index() {
    let config = Config { print_names: false, fun_arrows: true };
    assert_eq!(show_with(&V2, config, 80), "_#2");
    let unnamed = Expr::FunLit { param: FunParam::explicit(None, &INT), body: &V0 };
    assert_eq!(show(&unnamed), "fun (_ : Int) => _#0");
}

#[test]
fn records_and_tuples() {
    let bump = Bump::new();
    let record = Expr::RecordLit(bump.alloc(vec![
        (Symbol::new("x"), Expr::Lit(Const::Int(1))),
        (Symbol::new("y"), Expr::Lit(Const::Bool(false))),
    ]));
    assert_eq!(show(&record), "{x = 1, y = false}");
    let record_type = Expr::RecordType(bump.alloc(vec![
        (Symbol::new("A"), TYPE),
        (Symbol::new("a"), V0),
    ]));
    assert_eq!(show(&record_type), "{A : Type, a : A}");
    let single = Expr::RecordLit(bump.alloc(vec![(Symbol::new("_0"), Expr::Lit(Const::Int(1)))]));
    assert_eq!(show(&single), "(1,)");
    let pair = Expr::RecordType(bump.alloc(vec![(Symbol::new("_0"), BOOL), (Symbol::new("_1"), INT)]));
    assert_eq!(show(&pair), "(Bool, Int)");
    let out_of_order = Expr::RecordLit(bump.alloc(vec![
        (Symbol::new("_1"), Expr::Lit(Const::Int(1))),
        (Symbol::new("_0"), Expr::Lit(Const::Int(2))),
    ]));
    assert_eq!(show(&out_of_order), "{_1 = 1, _0 = 2}");
    assert_eq!(show(&Expr::RecordLit(bump.alloc(Vec::new()))), "()");
    assert_eq!(show(&Expr::RecordType(bump.alloc(Vec::new()))), "()");
    let proj = Expr::RecordProj(bump.alloc(record), Symbol::new("x"));
    assert_eq!(show(&proj), "{x = 1, y = false}.x");
}

#[test]
fn a_match_prints_its_cases_and_its_default() {
    let bump = Bump::new();
    let on_bool = Expr::MatchBool {
        cond: &Expr::Lit(Const::Bool(true)),
        then_branch: &Expr::Lit(Const::Int(1)),
        else_branch: &Expr::Lit(Const::Int(0)),
    };
    assert_eq!(show(&on_bool), "match true {\n    true => 1,\n    false => 0,\n}");
    let on_int = Expr::MatchInt {
        scrut: &Expr::Lit(Const::Int(3)),
        cases: bump.alloc(vec![(1, Expr::Lit(Const::Int(10))), (2, Expr::Lit(Const::Int(20)))]),
        default: &Expr::Lit(Const::Int(0)),
    };
    assert_eq!(show(&on_int), "match 3 {\n    1 => 10,\n    2 => 20,\n    _ => 0,\n}");
}

#[test]
fn lets_print_as_a_block() {
    let inner = Expr::Let {
        name: Some(Symbol::new("y")),
        ty: &BOOL,
        init: &Expr::Lit(Const::Bool(true)),
        body: &Expr::LocalVar(RelativeVar { index: 1 }),
    };
    let outer = Expr::Let {
        name: Some(Symbol::new("x")),
        ty: &INT,
        init: &Expr::Lit(Const::Int(1)),
        body: &inner,
    };
    assert_eq!(show(&outer), "let x : Int = 1;\nlet y : Bool = true;\nx");
}

#[test]
fn a_term_that_is_too_long_for_the_line_breaks() {
    let long = Expr::FunApp {
        fun: &Expr::FunApp {
            fun: &Expr::Prim(Prim::Append),
            arg: FunArg::explicit(&Expr::Lit(Const::Int(1000000))),
        },
        arg: FunArg::explicit(&Expr::Lit(Const::Int(2000000))),
    };
    assert_eq!(show_with(&long, Config::default(), 80), "append 1000000 2000000");
    assert_eq!(show_with(&long, Config::default(), 10), "append\n    1000000\n    2000000");
}

#[test]
fn the_precedence_of_a_term_is_that_of_its_outermost_form() {
    assert_eq!(Prec::of_expr(&Expr::Lit(Const::Int(1))), Prec::Atom);
    assert_eq!(Prec::of_expr(&Expr::Error), Prec::Atom);
    assert_eq!(Prec::of_expr(&Expr::RecordProj(&INT, Symbol::new("x"))), Prec::Proj);
    let applied = Expr::FunApp { fun: &INT, arg: FunArg::explicit(&INT) };
    assert_eq!(Prec::of_expr(&applied), Prec::App);
    let arrow = Expr::FunType { param: FunParam::explicit(None, &INT), body: &BOOL };
    assert_eq!(Prec::of_expr(&arrow), Prec::Fun);
    let bound = Expr::Let { name: None, ty: &INT, init: &INT, body: &INT };
    assert_eq!(Prec::of_expr(&bound), Prec::Let);
    assert_eq!(Prec::max(), Prec::Let);
    assert!(Prec::Atom.rank() < Prec::Proj.rank());
    assert!(Prec::Proj.rank() < Prec::App.rank());
    assert!(Prec::App.rank() < Prec::Fun.rank());
    assert!(Prec::Fun.rank() < Prec::Let.rank());
}

#[test]
fn the_default_is_to_print_names_and_arrows() {
    let config = Config::default();
    assert!(config.print_names);
    assert!(config.fun_arrows);
}

#[test]
fn a_list_literal_prints_in_brackets() {
    let bump = Bump::new();
    let items = vec![Expr::Lit(Const::Int(1)), Expr::Lit(Const::Int(2))];
    let list = Expr::list(&bump, INT, &items);
    assert!(list.is_list());
    assert_eq!(show(&list), "[1, 2]");
    assert_eq!(Prec::of_expr(&list), Prec::Atom);
    let empty = Expr::list(&bump, INT, &Vec::new());
    assert!(empty.is_list());
    assert_eq!(show(&empty), "[]");
    let nested = Expr::list(&bump, INT, &vec![list, empty]);
    assert_eq!(show(&nested), "[[1, 2], []]");
    let applied = Expr::FunApp { fun: &Expr::Prim(Prim::Len), arg: FunArg::explicit(&list) };
    assert!(!applied.is_list());
    assert_eq!(show(&applied), "len [1, 2]");
    assert_eq!(show_with(&list, Config::default(), 3), "[1,\n2]");
}

#[test]
fn the_layout_follows_the_document_and_the_width() {
    let bump = Bump::new();
    let printer = Printer::new(&bump);
    let words = printer.group(printer.concat(vec![
        printer.text("one"),
        printer.nest(2, printer.concat(vec![Doc::Line, printer.text("two")])),
    ]));
    assert_eq!(words.pretty(80), "one two");
    assert_eq!(words.pretty(5), "one\n  two");
    let forced = printer.concat(vec![printer.text("a"), Doc::Hardline, printer.text("b")]);
    assert_eq!(forced.pretty(80), "a\nb");
    assert_eq!(Doc::Nil.pretty(80), "");
    let soft = printer.concat(vec![printer.text("left"), printer.softline(), printer.text("right")]);
    assert_eq!(soft.pretty(80), "left right");
    assert_eq!(soft.pretty(4), "left\nright");
}
