//! From decision trees to core terms.

use super::compile::{path_model, Decision, Path, Tree};
use crate::arena::arena_alloc;
use crate::symbol::Symbol;
use crate::syntax::{Expr, Term};
use vstd::prelude::*;

verus! {

/// The projection of the labels of a path from a term, from the first label
/// to the last.
pub open spec fn project_path(scrut: Term, path: Path) -> Term
    decreases path.len(),
{
    if path.len() == 0 {
        scrut
    } else {
        Term::RecordProj(Box::new(project_path(scrut, path.drop_last())), path.last())
    }
}

/// The term of a decision tree: a match on a boolean for each test of a
/// boolean and for each guard, a match on an integer for each test of an
/// integer, the body of the arm for each leaf, and the error term where no
/// arm is taken. `arms` holds, for each arm, its guard and its body.
pub open spec fn tree_term(tree: Tree, scrut: Term, arms: Seq<(Option<Term>, Term)>) -> Term
    decreases tree,
{
    match tree {
        Tree::Fail => Term::Error,
        Tree::Leaf(arm) => if arm < arms.len() {
            arms[arm as int].1
        } else {
            Term::Error
        },
        Tree::Guard { arm, otherwise } => if arm < arms.len() {
            match arms[arm as int].0 {
                Some(guard) => Term::MatchBool {
                    cond: Box::new(guard),
                    then_branch: Box::new(arms[arm as int].1),
                    else_branch: Box::new(tree_term(*otherwise, scrut, arms)),
                },
                None => arms[arm as int].1,
            }
        } else {
            Term::Error
        },
        Tree::Bool { path, on_true, on_false } => Term::MatchBool {
            cond: Box::new(project_path(scrut, path)),
            then_branch: Box::new(tree_term(*on_true, scrut, arms)),
            else_branch: Box::new(tree_term(*on_false, scrut, arms)),
        },
        Tree::Int { path, cases, default } => Term::MatchInt {
            scrut: Box::new(project_path(scrut, path)),
            cases: Seq::new(
                cases.len(),
                |i: int|
                    if 0 <= i < cases.len() {
                        (cases[i].0, tree_term(cases[i].1, scrut, arms))
                    } else {
                        (0u32, Term::Error)
                    },
            ),
            default: Box::new(tree_term(*default, scrut, arms)),
        },
    }
}

/// Whether some value is left without an arm.
pub open spec fn tree_fails(tree: Tree) -> bool
    decreases tree,
{
    match tree {
        Tree::Fail => true,
        Tree::Leaf(_) => false,
        Tree::Guard { otherwise, .. } => tree_fails(*otherwise),
        Tree::Bool { on_true, on_false, .. } => tree_fails(*on_true) || tree_fails(*on_false),
        Tree::Int { cases, default, .. } => tree_fails(*default) || exists|i: int|
            0 <= i < cases.len() && tree_fails((#[trigger] cases[i]).1),
    }
}

/// Whether the arm is taken somewhere in the tree.
pub open spec fn tree_takes(tree: Tree, arm: nat) -> bool
    decreases tree,
{
    match tree {
        Tree::Fail => false,
        Tree::Leaf(taken) => taken == arm,
        Tree::Guard { arm: taken, otherwise } => taken == arm || tree_takes(*otherwise, arm),
        Tree::Bool { on_true, on_false, .. } => tree_takes(*on_true, arm) || tree_takes(
            *on_false,
            arm,
        ),
        Tree::Int { cases, default, .. } => tree_takes(*default, arm) || exists|i: int|
            0 <= i < cases.len() && tree_takes((#[trigger] cases[i]).1, arm),
    }
}

/// The models of the guards and bodies of arms.
pub open spec fn arms_model(arms: Seq<(Option<Expr>, Expr)>) -> Seq<(Option<Term>, Term)> {
    Seq::new(
        arms.len(),
        |i: int|
            (
                match arms[i].0 {
                    Some(guard) => Some(guard@),
                    None => None,
                },
                arms[i].1@,
            ),
    )
}

/// The projection of the labels of a path from a term.
pub fn project_path_exec<'core>(
    bump: &'core bumpalo::Bump,
    scrut: Expr<'core>,
    path: &Vec<Symbol<'core>>,
) -> (r: Expr<'core>)
    ensures
        r@ == project_path(scrut@, path_model(path@)),
{
    let ghost whole = path_model(path@);
    let mut out = scrut;
    let mut i: usize = 0;
    assert(whole.take(0) =~= Seq::empty());
    while i < path.len()
        invariant
            i <= path@.len(),
            whole == path_model(path@),
            out@ == project_path(scrut@, whole.take(i as int)),
        decreases path@.len() - i,
    {
        let ghost next = whole.take(i + 1);
        assert(next.drop_last() =~= whole.take(i as int));
        assert(next.last() == path@[i as int]@);
        out = Expr::RecordProj(arena_alloc(bump, out), path[i]);
        i += 1;
    }
    assert(whole.take(path@.len() as int) =~= whole);
    out
}

/// The term of a decision tree.
#[verifier::loop_isolation(false)]
pub fn lower<'core>(
    bump: &'core bumpalo::Bump,
    tree: &Decision<'core>,
    scrut: Expr<'core>,
    arms: &Vec<(Option<Expr<'core>>, Expr<'core>)>,
) -> (r: Expr<'core>)
    ensures
        r@ == tree_term(tree@, scrut@, arms_model(arms@)),
    decreases *tree,
{
    match tree {
        Decision::Fail => Expr::Error,
        Decision::Leaf(arm) => if *arm < arms.len() {
            arms[*arm].1
        } else {
            Expr::Error
        },
        Decision::Guard { arm, otherwise } => {
            if *arm >= arms.len() {
                return Expr::Error;
            }
            match arms[*arm].0 {
                Some(guard) => {
                    let otherwise = lower(bump, otherwise, scrut, arms);
                    Expr::MatchBool {
                        cond: arena_alloc(bump, guard),
                        then_branch: arena_alloc(bump, arms[*arm].1),
                        else_branch: arena_alloc(bump, otherwise),
                    }
                },
                None => arms[*arm].1,
            }
        },
        Decision::Bool { path, on_true, on_false } => {
            let cond = project_path_exec(bump, scrut, path);
            let on_true = lower(bump, on_true, scrut, arms);
            let on_false = lower(bump, on_false, scrut, arms);
            Expr::MatchBool {
                cond: arena_alloc(bump, cond),
                then_branch: arena_alloc(bump, on_true),
                else_branch: arena_alloc(bump, on_false),
            }
        },
        Decision::Int { path, cases, default } => {
            let subject = project_path_exec(bump, scrut, path);
            let mut lowered: Vec<(u32, Expr<'core>)> = Vec::new();
            let mut i: usize = 0;
            while i < cases.len()
                invariant
                    i <= cases@.len(),
                    lowered@.len() == i,
                    forall|j: int|
                        0 <= j < i ==> (#[trigger] lowered@[j]).0 == cases@[j].0 && lowered@[j].1@
                            == tree_term(cases@[j].1@, scrut@, arms_model(arms@)),
                decreases cases@.len() - i,
            {
                proof {
                    assert(decreases_to!(*cases => cases[i as int]));
                }
                let rhs = lower(bump, &cases[i].1, scrut, arms);
                lowered.push((cases[i].0, rhs));
                i += 1;
            }
            let default = lower(bump, default, scrut, arms);
            let r = Expr::MatchInt {
                scrut: arena_alloc(bump, subject),
                cases: arena_alloc(bump, lowered),
                default: arena_alloc(bump, default),
            };
            assert(r@->cases =~= tree_term(tree@, scrut@, arms_model(arms@))->cases);
            r
        },
    }
}

/// Whether some value is left without an arm.
#[verifier::loop_isolation(false)]
pub fn fails(tree: &Decision) -> (r: bool)
    ensures
        r == tree_fails(tree@),
    decreases *tree,
{
    match tree {
        Decision::Fail => true,
        Decision::Leaf(_) => false,
        Decision::Guard { otherwise, .. } => fails(otherwise),
        Decision::Bool { on_true, on_false, .. } => fails(on_true) || fails(on_false),
        Decision::Int { cases, default, .. } => {
            if fails(default) {
                return true;
            }
            let mut i: usize = 0;
            while i < cases.len()
                invariant
                    i <= cases@.len(),
                    forall|j: int| 0 <= j < i ==> !tree_fails((#[trigger] cases@[j]).1@),
                decreases cases@.len() - i,
            {
                proof {
                    assert(decreases_to!(*cases => cases[i as int]));
                    assert(tree@->cases[i as int].1 == cases@[i as int].1@);
                }
                if fails(&cases[i].1) {
                    return true;
                }
                i += 1;
            }
            proof {
                assert forall|j: int| 0 <= j < tree@->cases.len() implies !tree_fails(
                    (#[trigger] tree@->cases[j]).1,
                ) by {
                    assert(!tree_fails(cases@[j].1@));
                }
            }
            false
        },
    }
}

/// Whether the arm is taken somewhere in the tree.
#[verifier::loop_isolation(false)]
pub fn takes(tree: &Decision, arm: usize) -> (r: bool)
    ensures
        r == tree_takes(tree@, arm as nat),
    decreases *tree,
{
    match tree {
        Decision::Fail => false,
        Decision::Leaf(taken) => *taken == arm,
        Decision::Guard { arm: taken, otherwise } => *taken == arm || takes(otherwise, arm),
        Decision::Bool { on_true, on_false, .. } => takes(on_true, arm) || takes(on_false, arm),
        Decision::Int { cases, default, .. } => {
            if takes(default, arm) {
                return true;
            }
            let mut i: usize = 0;
            while i < cases.len()
                invariant
                    i <= cases@.len(),
                    forall|j: int|
                        0 <= j < i ==> !tree_takes((#[trigger] cases@[j]).1@, arm as nat),
                decreases cases@.len() - i,
            {
                proof {
                    assert(decreases_to!(*cases => cases[i as int]));
                    assert(tree@->cases[i as int].1 == cases@[i as int].1@);
                }
                if takes(&cases[i].1, arm) {
                    return true;
                }
                i += 1;
            }
            proof {
                assert forall|j: int| 0 <= j < tree@->cases.len() implies !tree_takes(
                    (#[trigger] tree@->cases[j]).1,
                    arm as nat,
                ) by {
                    assert(!tree_takes(cases@[j].1@, arm as nat));
                }
            }
            false
        },
    }
}

} // verus!
