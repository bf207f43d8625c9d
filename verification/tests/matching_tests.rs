//! Constructors of patterns, and decision trees.

use bumpalo::Bump;
use pion::env::RelativeVar;
use pion::matching::compile::{collect_keys, compile, Decision};
use pion::matching::constructors::{
    has_constructors, Bools, Constructor, Constructors, PatConstructors,
};
use pion::matching::lower::{fails, lower, takes};
use pion::matching::matrix::{PatMatrix, PatRow};
use pion::symbol::Symbol;
use pion::syntax::{Const, Expr, Pat};

fn num(n: u32) -> Pat<'static> {
    Pat::Lit(Const::Int(n))
}

fn truth(b: bool) -> Pat<'static> {
    Pat::Lit(Const::Bool(b))
}

fn row<'a>(pats: Vec<Pat<'a>>, body: usize) -> PatRow<'a> {
    PatRow { pats, guard: None, body }
}

fn guarded<'a>(pats: Vec<Pat<'a>>, body: usize) -> PatRow<'a> {
    PatRow { pats, guard: Some(Expr::Lit(Const::Bool(true))), body }
}

fn pair<'a>(bump: &'a Bump, first: Pat<'a>, second: Pat<'a>) -> Pat<'a> {
    Pat::RecordLit(bump.alloc(vec![(Symbol::new("_0"), first), (Symbol::new("_1"), second)]))
}

#[test]
fn which_booleans_a_set_holds() {
    assert!(Bools::True.contains(true));
    assert!(!Bools::True.contains(false));
    assert!(Bools::False.contains(false));
    assert!(!Bools::False.contains(true));
    assert!(Bools::Both.contains(true));
    assert!(Bools::Both.contains(false));
    assert_eq!(Bools::from(true), Bools::True);
    assert_eq!(Bools::from(false), Bools::False);
}

#[test]
fn the_arity_of_a_constructor_is_the_number_of_its_fields() {
    let bump = Bump::new();
    assert_eq!(Constructor::Lit(Const::Int(3)).arity(), 0);
    assert_eq!(Constructor::Lit(Const::Bool(true)).arity(), 0);
    let fields = bump.alloc(vec![(Symbol::new("x"), num(1)), (Symbol::new("y"), Pat::Underscore)]);
    assert_eq!(Constructor::Record(fields).arity(), 2);
    assert_eq!(Constructor::Record(bump.alloc(Vec::new())).arity(), 0);
}

#[test]
fn record_constructors_are_the_same_when_their_labels_are() {
    let bump = Bump::new();
    let one = bump.alloc(vec![(Symbol::new("x"), num(1)), (Symbol::new("y"), num(2))]);
    let other = bump.alloc(vec![(Symbol::new("x"), Pat::Underscore), (Symbol::new("y"), num(9))]);
    let renamed = bump.alloc(vec![(Symbol::new("x"), num(1)), (Symbol::new("z"), num(2))]);
    let shorter = bump.alloc(vec![(Symbol::new("x"), num(1))]);
    assert!(Constructor::Record(one) == Constructor::Record(other));
    assert!(Constructor::Record(one) != Constructor::Record(renamed));
    assert!(Constructor::Record(one) != Constructor::Record(shorter));
    assert!(Constructor::Lit(Const::Int(1)) == Constructor::Lit(Const::Int(1)));
    assert!(Constructor::Lit(Const::Int(1)) != Constructor::Lit(Const::Int(2)));
    assert!(Constructor::Lit(Const::Int(1)) != Constructor::Lit(Const::Bool(true)));
    assert!(Constructor::Lit(Const::Int(1)) != Constructor::Record(one));
}

#[test]
fn wildcards_have_no_constructor() {
    let bump = Bump::new();
    assert!(!has_constructors(&Pat::Underscore));
    assert!(!has_constructors(&Pat::Error));
    assert!(!has_constructors(&Pat::Ident(Symbol::new("x"))));
    assert!(has_constructors(&num(0)));
    assert!(has_constructors(&pair(&bump, Pat::Underscore, Pat::Underscore)));
    assert!(PatConstructors::new(Pat::Underscore).next().is_none());
    assert!(PatConstructors::new(num(4)).next() == Some(Constructor::Lit(Const::Int(4))));
}

#[test]
fn a_column_of_wildcards_has_no_constructors() {
    let matrix = PatMatrix::new(vec![
        row(vec![Pat::Underscore], 0),
        row(vec![Pat::Ident(Symbol::new("x"))], 1),
    ]);
    assert_eq!(matrix.num_rows(), 2);
    assert!(matrix.column_constructors(0).is_none());
    assert!(PatMatrix::new(Vec::new()).column_constructors(0).is_none());
}

#[test]
fn the_booleans_of_a_column() {
    let only_true = PatMatrix::new(vec![row(vec![truth(true)], 0), row(vec![Pat::Underscore], 1)]);
    match only_true.column_constructors(0) {
        Some(Constructors::Bools(bools)) => assert_eq!(bools, Bools::True),
        other => panic!("{other:?}"),
    }
    assert!(!only_true.column_constructors(0).unwrap().is_exhaustive());
    let both = PatMatrix::new(vec![
        row(vec![Pat::Underscore], 0),
        row(vec![truth(false)], 1),
        row(vec![truth(true)], 2),
    ]);
    match both.column_constructors(0) {
        Some(Constructors::Bools(bools)) => assert_eq!(bools, Bools::Both),
        other => panic!("{other:?}"),
    }
    assert!(both.column_constructors(0).unwrap().is_exhaustive());
}

#[test]
fn the_integers_of_a_column_come_each_once_and_ascending() {
    let matrix = PatMatrix::new(vec![
        row(vec![Pat::Underscore, num(7)], 0),
        row(vec![Pat::Underscore, num(2)], 1),
        row(vec![Pat::Underscore, Pat::Underscore], 2),
        row(vec![Pat::Underscore, num(7)], 3),
        row(vec![Pat::Underscore, num(5)], 4),
        row(vec![Pat::Underscore, num(0)], 5),
        row(vec![Pat::Underscore, num(9)], 6),
    ]);
    let found = matrix.column_constructors(1).unwrap();
    assert!(matches!(found, Constructors::Ints(_)));
    assert!(format!("{found:?}").contains("[0, 2, 5, 7, 9]"));
    assert!(!found.is_exhaustive());
    assert_eq!(collect_keys(&matrix.rows, 1), vec![0, 2, 5, 7, 9]);
    assert_eq!(collect_keys(&matrix.rows, 0), Vec::<u32>::new());
    assert_eq!(collect_keys(&matrix.rows, 2), Vec::<u32>::new());
}

#[test]
fn a_record_pattern_is_the_one_constructor_of_its_column() {
    let bump = Bump::new();
    let matrix = PatMatrix::new(vec![
        row(vec![Pat::Underscore], 0),
        row(vec![pair(&bump, num(1), Pat::Underscore)], 1),
        row(vec![pair(&bump, num(2), num(3))], 2),
    ]);
    match matrix.column_constructors(0) {
        Some(Constructors::Record(fields)) => {
            assert_eq!(fields.len(), 2);
            assert!(matches!(fields[0].1, Pat::Lit(Const::Int(1))));
        }
        other => panic!("{other:?}"),
    }
    assert!(matrix.column_constructors(0).unwrap().is_exhaustive());
}

/// A value that the patterns of these tests look at.
#[derive(Clone, Debug)]
enum Val {
    Bool(bool),
    Int(u32),
    Pair(Box<Val>, Box<Val>),
}

fn part<'v>(value: &'v Val, path: &[Symbol]) -> &'v Val {
    let mut at = value;
    for label in path {
        at = match at {
            Val::Pair(first, _) if label.as_str() == "_0" => first,
            Val::Pair(_, second) if label.as_str() == "_1" => second,
            _ => panic!("no field"),
        };
    }
    at
}

fn matches(pat: &Pat, value: &Val) -> bool {
    match (pat, value) {
        (Pat::Error | Pat::Underscore | Pat::Ident(_), _) => true,
        (Pat::Lit(Const::Bool(b)), Val::Bool(v)) => b == v,
        (Pat::Lit(Const::Int(n)), Val::Int(v)) => n == v,
        (Pat::RecordLit(fields), Val::Pair(first, second)) => {
            matches(&fields[0].1, first) && matches(&fields[1].1, second)
        }
        _ => false,
    }
}

fn first_match(rows: &[PatRow], value: &Val, guards: &[bool]) -> Option<usize> {
    rows.iter()
        .find(|row| matches(&row.pats[0], value) && (row.guard.is_none() || guards[row.body]))
        .map(|row| row.body)
}

fn decide(tree: &Decision, value: &Val, guards: &[bool]) -> Option<usize> {
    match tree {
        Decision::Fail => None,
        Decision::Leaf(arm) => Some(*arm),
        Decision::Guard { arm, otherwise } => match guards[*arm] {
            true => Some(*arm),
            false => decide(otherwise, value, guards),
        },
        Decision::Bool { path, on_true, on_false } => match part(value, path) {
            Val::Bool(true) => decide(on_true, value, guards),
            Val::Bool(false) => decide(on_false, value, guards),
            _ => None,
        },
        Decision::Int { path, cases, default } => match part(value, path) {
            Val::Int(key) => match cases.iter().find(|case| case.0 == *key) {
                Some(case) => decide(&case.1, value, guards),
                None => decide(default, value, guards),
            },
            _ => None,
        },
    }
}

#[test]
fn the_tree_takes_the_first_arm_that_matches() {
    let bump = Bump::new();
    let rows = vec![
        row(vec![pair(&bump, num(1), truth(true))], 0),
        guarded(vec![pair(&bump, num(1), Pat::Underscore)], 1),
        row(vec![pair(&bump, Pat::Ident(Symbol::new("n")), truth(false))], 2),
        row(vec![pair(&bump, num(3), truth(true))], 3),
        guarded(vec![Pat::Underscore], 4),
        row(vec![pair(&bump, num(2), Pat::Underscore)], 5),
    ];
    let paths = vec![Vec::new()];
    let tree = compile(&rows, &paths, 64).unwrap();
    for n in 0..5 {
        for b in [false, true] {
            for guards in 0..4u32 {
                let mut holds = vec![false; 6];
                holds[1] = guards & 1 != 0;
                holds[4] = guards & 2 != 0;
                let value = Val::Pair(Box::new(Val::Int(n)), Box::new(Val::Bool(b)));
                assert_eq!(
                    decide(&tree, &value, &holds),
                    first_match(&rows, &value, &holds),
                    "{value:?} with guards {holds:?}"
                );
            }
        }
    }
    assert!(fails(&tree));
    for arm in 0..6 {
        assert!(takes(&tree, arm));
    }
}

#[test]
fn an_arm_after_a_wildcard_is_never_taken() {
    let rows = vec![row(vec![num(1)], 0), row(vec![Pat::Underscore], 1), row(vec![num(2)], 2)];
    let tree = compile(&rows, &vec![Vec::new()], 64).unwrap();
    assert!(!fails(&tree));
    assert!(takes(&tree, 0));
    assert!(takes(&tree, 1));
    assert!(!takes(&tree, 2));
}

#[test]
fn no_rows_compile_to_failure() {
    let tree = compile(&Vec::new(), &vec![Vec::new()], 1).unwrap();
    assert!(matches!(tree, Decision::Fail));
    assert!(fails(&tree));
}

#[test]
fn compilation_stops_where_the_fuel_ends() {
    let rows = vec![row(vec![num(1)], 0), row(vec![Pat::Underscore], 1)];
    assert!(compile(&rows, &vec![Vec::new()], 0).is_none());
    assert!(compile(&rows, &vec![Vec::new()], 1).is_none());
    assert!(compile(&rows, &vec![Vec::new()], 2).is_some());
}

#[test]
fn a_test_of_an_integer_becomes_a_match_with_a_default() {
    let bump = Bump::new();
    let rows = vec![row(vec![num(4)], 0), row(vec![num(1)], 1), row(vec![Pat::Underscore], 2)];
    let tree = compile(&rows, &vec![Vec::new()], 64).unwrap();
    let arms = vec![
        (None, Expr::Lit(Const::Int(40))),
        (None, Expr::Lit(Const::Int(10))),
        (None, Expr::Lit(Const::Int(0))),
    ];
    let scrut = Expr::LocalVar(RelativeVar { index: 0 });
    match lower(&bump, &tree, scrut, &arms) {
        Expr::MatchInt { scrut, cases, default } => {
            assert!(matches!(scrut, Expr::LocalVar(RelativeVar { index: 0 })));
            assert_eq!(cases.len(), 2);
            assert!(matches!(cases[0], (1, Expr::Lit(Const::Int(10)))));
            assert!(matches!(cases[1], (4, Expr::Lit(Const::Int(40)))));
            assert!(matches!(default, Expr::Lit(Const::Int(0))));
        }
        other => panic!("{other:?}"),
    }
}

#[test]
fn a_match_that_does_not_cover_every_value_defaults_to_the_error_term() {
    let bump = Bump::new();
    let rows = vec![row(vec![truth(true)], 0)];
    let tree = compile(&rows, &vec![Vec::new()], 64).unwrap();
    assert!(fails(&tree));
    let arms = vec![(None, Expr::Lit(Const::Int(1)))];
    match lower(&bump, &tree, Expr::LocalVar(RelativeVar { index: 0 }), &arms) {
        Expr::MatchBool { then_branch, else_branch, .. } => {
            assert!(matches!(then_branch, Expr::Lit(Const::Int(1))));
            assert!(matches!(else_branch, Expr::Error));
        }
        other => panic!("{other:?}"),
    }
}

#[test]
fn patterns_of_another_kind_do_not_count_among_the_literals_of_a_column() {
    let bump = Bump::new();
    let mixed = PatMatrix::new(vec![
        row(vec![num(3)], 0),
        row(vec![truth(true)], 1),
        row(vec![pair(&bump, num(1), num(2))], 2),
        row(vec![num(1)], 3),
    ]);
    let found = mixed.column_constructors(0).unwrap();
    assert!(format!("{found:?}").contains("[1, 3]"));
    let booleans = PatMatrix::new(vec![row(vec![truth(false)], 0), row(vec![num(1)], 1)]);
    match booleans.column_constructors(0) {
        Some(Constructors::Bools(bools)) => assert_eq!(bools, Bools::False),
        other => panic!("{other:?}"),
    }
}

#[test]
fn the_tree_tests_the_integers_that_the_column_holds() {
    let matrix = PatMatrix::new(vec![
        row(vec![num(7)], 0),
        row(vec![num(2)], 1),
        row(vec![Pat::Underscore], 2),
        row(vec![num(7)], 3),
        row(vec![num(5)], 4),
    ]);
    let keys = collect_keys(&matrix.rows, 0);
    let found = matrix.column_constructors(0).unwrap();
    assert!(format!("{found:?}").contains(&format!("{keys:?}")));
    let tree = compile(&matrix.rows, &vec![Vec::new()], 64).unwrap();
    match tree {
        Decision::Int { cases, .. } => {
            let tested: Vec<u32> = cases.iter().map(|case| case.0).collect();
            assert_eq!(tested, keys);
            assert_eq!(tested, vec![2, 5, 7]);
        }
        other => panic!("{other:?}"),
    }
}
