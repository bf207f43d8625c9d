//! Normal forms, and that reading back undoes evaluation on them.
//!
//! A term in normal form has nothing left to compute: no function literal
//! is applied, no primitive that computes has an argument, no literal is
//! matched on or projected from, nothing is bound by `let`, and no
//! metavariable in it has a solution. Such a term evaluates, where each
//! variable stands for itself, to a value that reads back as the same term.
//! A term that is not in normal form reads back as another term, its normal
//! form: `(fun x => x) 1` as `1`.

use crate::elab::Elaborator;
use crate::env::SharedEnv;
use crate::outcome::elab_opts;
use crate::prim::Prim;
use crate::quote::{
    quote_branch_spec, quote_cases_spec, quote_closure_spec, quote_fields_spec, quote_spec,
    quote_spine_spec, quote_telescope_spec, var_value,
};
use crate::semantics::{
    apply_spec, error_value, eval_fields_spec, eval_spec, force_spec, match_bool_spec,
    match_int_spec, project_spec, reduce_spec, Closure, Elim, EvalOpts, Head, Telescope, Value,
    ValueEnv,
};
use crate::symbol::Symbol;
use crate::syntax::{lemma_alpha_eq_reflexive, Expr, FunArg, FunParam, Term};
use vstd::prelude::*;

verus! {

/// Whether the metavariable `var` has no solution.
pub open spec fn unsolved(metas: Seq<Option<Value>>, var: nat) -> bool {
    var >= metas.len() || metas[var as int] is None
}

/// Whether a primitive computes nothing, whatever it is applied to: the
/// types and what makes them, the proofs of equality, and the head of a
/// list literal.
pub open spec fn inert(prim: Prim) -> bool {
    match prim {
        Prim::Type
        | Prim::Bool
        | Prim::Int
        | Prim::List
        | Prim::Eq
        | Prim::Refl
        | Prim::Subst
        | Prim::ListLit => true,
        _ => false,
    }
}

/// Whether a term is a primitive that computes nothing.
pub open spec fn inert_prim(t: Term) -> bool {
    t matches Term::Prim(prim) && inert(prim)
}

/// Whether a term is in normal form, where the metavariables have the
/// solutions `metas`: a literal, a primitive, the error term, a function, a
/// function type, a record or a record type whose parts are in normal form,
/// or a neutral term. A
/// neutral term is a variable or a metavariable without solution, such a
/// term or a primitive that computes nothing applied to an argument in
/// normal form, a projection from a neutral term, or a match on a neutral
/// term with branches in normal form. With `neutral`, whether the term is
/// neutral. No term with a `let`, a solved metavariable or a primitive that
/// computes applied to an argument counts as in normal form.
pub open spec fn normal_form(metas: Seq<Option<Value>>, t: Term, neutral: bool) -> bool
    decreases t,
{
    match t {
        Term::LocalVar(_) => true,
        Term::MetaVar(var) => unsolved(metas, var),
        Term::Lit(_) | Term::Prim(_) | Term::Error => !neutral,
        Term::FunApp { fun, arg, .. } => (normal_form(metas, *fun, true) || inert_prim(*fun))
            && normal_form(metas, *arg, false),
        Term::RecordProj(scrut, _) => normal_form(metas, *scrut, true),
        Term::MatchBool { cond, then_branch, else_branch } => normal_form(metas, *cond, true)
            && normal_form(metas, *then_branch, false) && normal_form(metas, *else_branch, false),
        Term::FunType { ty, body, .. } | Term::FunLit { ty, body, .. } => !neutral && normal_form(
            metas,
            *ty,
            false,
        ) && normal_form(metas, *body, false),
        Term::RecordLit(fields) => !neutral && forall|i: int|
            0 <= i < fields.len() ==> normal_form(metas, (#[trigger] fields[i]).1, false),
        Term::RecordType(fields) => !neutral && forall|i: int|
            0 <= i < fields.len() ==> normal_form(metas, (#[trigger] fields[i]).1, false),
        Term::MatchInt { scrut, cases, default } => normal_form(metas, *scrut, true)
            && normal_form(metas, *default, false) && forall|i: int|
            0 <= i < cases.len() ==> normal_form(metas, (#[trigger] cases[i]).1, false),
        _ => false,
    }
}

/// Whether `fuel` nested steps are enough to evaluate the term and to read
/// it back, and a machine word enough to count the variables in scope at
/// every place in it, `depth` being their number around the term.
pub open spec fn suffices(t: Term, depth: nat, fuel: nat) -> bool
    decreases t,
{
    let rest = (fuel - 1) as nat;
    &&& fuel >= 1
    &&& depth <= usize::MAX
    &&& match t {
        Term::FunApp { fun, arg, .. } => suffices(*fun, depth, rest) && suffices(*arg, depth, rest),
        Term::RecordProj(scrut, _) => suffices(*scrut, depth, rest),
        Term::MatchBool { cond, then_branch, else_branch } => suffices(*cond, depth, rest)
            && suffices(*then_branch, depth, rest) && suffices(*else_branch, depth, rest),
        Term::FunType { ty, body, .. } | Term::FunLit { ty, body, .. } => suffices(
            *ty,
            depth,
            rest,
        ) && suffices(*body, depth + 1, rest),
        Term::RecordLit(fields) => forall|i: int|
            0 <= i < fields.len() ==> suffices((#[trigger] fields[i]).1, depth, rest),
        Term::RecordType(fields) => depth + fields.len() <= usize::MAX && forall|i: int|
            0 <= i < fields.len() ==> suffices(
                (#[trigger] fields[i]).1,
                (depth + i) as nat,
                rest,
            ),
        Term::MatchInt { scrut, cases, default } => suffices(*scrut, depth, rest) && suffices(
            *default,
            depth,
            rest,
        ) && forall|i: int|
            0 <= i < cases.len() ==> suffices((#[trigger] cases[i]).1, depth, rest),
        _ => true,
    }
}

/// What suffices, suffices with more fuel.
proof fn lemma_suffices_more(t: Term, depth: nat, fuel: nat, more: nat)
    requires
        suffices(t, depth, fuel),
        fuel <= more,
    ensures
        suffices(t, depth, more),
    decreases t,
{
    let rest = (fuel - 1) as nat;
    let more_rest = (more - 1) as nat;
    match t {
        Term::FunApp { fun, arg, .. } => {
            lemma_suffices_more(*fun, depth, rest, more_rest);
            lemma_suffices_more(*arg, depth, rest, more_rest);
        },
        Term::RecordProj(scrut, _) => {
            lemma_suffices_more(*scrut, depth, rest, more_rest);
        },
        Term::MatchBool { cond, then_branch, else_branch } => {
            lemma_suffices_more(*cond, depth, rest, more_rest);
            lemma_suffices_more(*then_branch, depth, rest, more_rest);
            lemma_suffices_more(*else_branch, depth, rest, more_rest);
        },
        Term::FunType { ty, body, .. } | Term::FunLit { ty, body, .. } => {
            lemma_suffices_more(*ty, depth, rest, more_rest);
            lemma_suffices_more(*body, depth + 1, rest, more_rest);
        },
        Term::RecordLit(fields) => {
            assert forall|i: int| 0 <= i < fields.len() implies suffices(
                (#[trigger] fields[i]).1,
                depth,
                more_rest,
            ) by {
                lemma_suffices_more(fields[i].1, depth, rest, more_rest);
            }
        },
        Term::RecordType(fields) => {
            assert forall|i: int| 0 <= i < fields.len() implies suffices(
                (#[trigger] fields[i]).1,
                (depth + i) as nat,
                more_rest,
            ) by {
                lemma_suffices_more(fields[i].1, (depth + i) as nat, rest, more_rest);
            }
        },
        Term::MatchInt { scrut, cases, default } => {
            lemma_suffices_more(*scrut, depth, rest, more_rest);
            lemma_suffices_more(*default, depth, rest, more_rest);
            assert forall|i: int| 0 <= i < cases.len() implies suffices(
                (#[trigger] cases[i]).1,
                depth,
                more_rest,
            ) by {
                lemma_suffices_more(cases[i].1, depth, rest, more_rest);
            }
        },
        _ => {},
    }
}

/// Whether each variable stands for itself in the environment: the value of
/// the variable of level `i` is that variable.
pub open spec fn stands_for_itself(env: ValueEnv) -> bool {
    forall|i: int| 0 <= i < env@.len() ==> #[trigger] env@[i] == var_value(i as usize)
}

/// What holds of a term in normal form: it evaluates to a value that reads
/// back as the term; and where the term is neutral, the value is a variable
/// with a spine that reads back as the term.
spec fn round_trip<'core>(
    opts: EvalOpts,
    metas: Seq<Option<Value<'core>>>,
    env: ValueEnv<'core>,
    e: Expr<'core>,
    neutral: bool,
    eval_fuel: nat,
    quote_fuel: nat,
) -> bool {
    let value = eval_spec(opts, metas, env, e, eval_fuel);
    &&& value is Some
    &&& quote_spec(opts, metas, env@.len() as usize, value->0, quote_fuel) == Some(e@)
    &&& neutral ==> (value->0 matches Value::Neutral(head, spine) && waits(metas, head)
        && quote_spine_spec(
        opts,
        metas,
        env@.len() as usize,
        head,
        spine,
        (quote_fuel - 1) as nat,
    ) == Some(e@))
}

/// Whether the head of a neutral value stays as it is: whether it is a
/// variable, a metavariable without solution or a primitive that computes
/// nothing.
spec fn waits(metas: Seq<Option<Value>>, head: Head) -> bool {
    match head {
        Head::LocalVar(_) => true,
        Head::MetaVar(var) => unsolved(metas, var.level as nat),
        Head::Prim(prim) => inert(prim),
        Head::Error => false,
    }
}

/// What the lemmas on normal forms ask of a term and an environment.
spec fn fits<'core>(
    metas: Seq<Option<Value<'core>>>,
    env: ValueEnv<'core>,
    e: Expr<'core>,
    neutral: bool,
    eval_fuel: nat,
    quote_fuel: nat,
) -> bool {
    &&& normal_form(metas, e@, neutral)
    &&& e@.scoped(env@.len())
    &&& stands_for_itself(env)
    &&& suffices(e@, env@.len(), eval_fuel)
    &&& suffices(e@, env@.len(), quote_fuel)
}

/// A term in normal form evaluates to a value that reads back as the term.
proof fn lemma_normal_form<'core>(
    opts: EvalOpts,
    metas: Seq<Option<Value<'core>>>,
    env: ValueEnv<'core>,
    e: Expr<'core>,
    neutral: bool,
    eval_fuel: nat,
    quote_fuel: nat,
)
    requires
        fits(metas, env, e, neutral, eval_fuel, quote_fuel),
    ensures
        round_trip(opts, metas, env, e, neutral, eval_fuel, quote_fuel),
    decreases e, 1nat, 0nat,
{
    let len = env@.len() as usize;
    let value = eval_spec(opts, metas, env, e, eval_fuel);
    match e {
        Expr::Lit(lit) => {
            assert(value == Some(Value::Lit(lit)));
            assert(force_spec(opts, metas, Value::Lit(lit), (quote_fuel - 1) as nat) == Some(
                Value::Lit(lit),
            ));
        },
        Expr::Prim(prim) => {
            assert(value == Some(Value::Prim(prim)));
            assert(force_spec(opts, metas, Value::Prim(prim), (quote_fuel - 1) as nat) == Some(
                Value::Prim(prim),
            ));
        },
        Expr::LocalVar(var) => {
            let level = (env@.len() - 1 - var.index) as usize;
            assert(env@[env@.len() - 1 - var.index] == var_value(level));
            assert(value == Some(var_value(level)));
            assert(force_spec(opts, metas, var_value(level), (quote_fuel - 1) as nat) == Some(
                var_value(level),
            ));
        },
        Expr::Error => {
            assert(value == Some(error_value::<'core>()));
            assert(force_spec(opts, metas, error_value::<'core>(), (quote_fuel - 1) as nat)
                == Some(error_value::<'core>()));
        },
        Expr::MetaVar(var) => {
            let waiting = Value::Neutral(Head::MetaVar(var), SharedEnv::Empty);
            assert(value == Some(waiting));
            assert(force_spec(opts, metas, waiting, (quote_fuel - 1) as nat) == Some(waiting));
        },
        Expr::FunApp { .. } => {
            lemma_application(opts, metas, env, e, neutral, eval_fuel, quote_fuel);
        },
        Expr::MatchBool { .. } => {
            lemma_match_bool(opts, metas, env, e, neutral, eval_fuel, quote_fuel);
        },
        Expr::RecordProj(..) => {
            lemma_projection(opts, metas, env, e, neutral, eval_fuel, quote_fuel);
        },
        Expr::FunType { .. } | Expr::FunLit { .. } => {
            lemma_binder(opts, metas, env, e, eval_fuel, quote_fuel);
        },
        Expr::MatchInt { .. } => {
            lemma_match_int(opts, metas, env, e, neutral, eval_fuel, quote_fuel);
        },
        Expr::RecordType(fields) => {
            let quote_rest = (quote_fuel - 1) as nat;
            let telescope = Telescope { env, fields, start: 0 };
            assert(value == Some(Value::RecordType(telescope)));
            assert(force_spec(opts, metas, Value::RecordType(telescope), quote_rest) == Some(
                Value::RecordType(telescope),
            ));
            assert(e@->RecordType_0.take(0) =~= Seq::empty());
            assert forall|i: int| 0 <= i < fields@.len() implies {
                &&& normal_form(metas, (#[trigger] fields@[i]).1@, false)
                &&& fields@[i].1@.scoped((env@.len() + i) as nat)
                &&& suffices(fields@[i].1@, (env@.len() + i) as nat, quote_rest)
            } by {
                let field = e@->RecordType_0[i];
                assert(field.1 == fields@[i].1@);
                assert(normal_form(metas, field.1, false));
                assert(field.1.scoped((env@.len() + i) as nat));
                assert(suffices(field.1, (env@.len() + i) as nat, quote_rest));
            }
            lemma_telescope(opts, metas, env@.len(), env, e, 0, Seq::empty(), quote_rest);
        },
        Expr::RecordLit(fields) => {
            let eval_rest = (eval_fuel - 1) as nat;
            let quote_rest = (quote_fuel - 1) as nat;
            assert(e@->RecordLit_0.take(0) =~= Seq::empty());
            assert forall|i: int| 0 <= i < fields@.len() implies fits(
                metas,
                env,
                (#[trigger] fields@[i]).1,
                false,
                eval_rest,
                quote_rest,
            ) by {
                let field = e@->RecordLit_0[i];
                assert(field.1 == fields@[i].1@);
                assert(normal_form(metas, field.1, false));
                assert(field.1.scoped(env@.len()));
                assert(suffices(field.1, env@.len(), eval_rest));
                assert(suffices(field.1, env@.len(), quote_rest));
            }
            lemma_fields(opts, metas, env, e, 0, SharedEnv::Empty, eval_rest, quote_rest);
            let values = eval_fields_spec(
                opts,
                metas,
                env,
                fields@,
                0,
                SharedEnv::Empty,
                eval_rest,
            )->0;
            assert(value == Some(Value::RecordLit(values)));
            assert(force_spec(opts, metas, Value::RecordLit(values), quote_rest) == Some(
                Value::RecordLit(values),
            ));
        },
        _ => {},
    }
}

/// An application of a neutral term or of a primitive that computes nothing
/// evaluates to a value that reads back as the term.
proof fn lemma_application<'core>(
    opts: EvalOpts,
    metas: Seq<Option<Value<'core>>>,
    env: ValueEnv<'core>,
    e: Expr<'core>,
    neutral: bool,
    eval_fuel: nat,
    quote_fuel: nat,
)
    requires
        e is FunApp,
        fits(metas, env, e, neutral, eval_fuel, quote_fuel),
    ensures
        round_trip(opts, metas, env, e, neutral, eval_fuel, quote_fuel),
    decreases e, 0nat, 0nat,
{
    let len = env@.len() as usize;
    let fun = e->FunApp_fun;
    let arg = e->FunApp_arg;
    let eval_rest = (eval_fuel - 1) as nat;
    let quote_rest = (quote_fuel - 1) as nat;
    lemma_normal_form(opts, metas, env, *arg.expr, false, eval_rest, quote_rest);
    let arg_value = eval_spec(opts, metas, env, *arg.expr, eval_rest)->0;
    let applied = FunArg { plicity: arg.plicity, expr: &arg_value };
    assert(quote_spec(opts, metas, len, arg_value, quote_rest) == Some(arg.expr@));
    assert(suffices(fun@, env@.len(), eval_rest));
    match *fun {
        Expr::Prim(prim) => {
            assert(fun@ == Term::Prim(prim));
            assert(!normal_form(metas, Term::Prim(prim), true));
            assert(inert_prim(fun@));
            let whole = SharedEnv::Empty.pushed(Elim::FunApp(applied));
            let value = Value::Neutral(Head::Prim(prim), whole);
            assert(eval_spec(opts, metas, env, *fun, eval_rest) == Some(Value::Prim(prim)));
            assert(reduce_spec(opts, metas, prim, whole, (eval_rest - 1) as nat) == Some(value));
            assert(apply_spec(opts, metas, Value::Prim(prim), applied, eval_rest) == Some(value));
            assert(eval_spec(opts, metas, env, e, eval_fuel) == Some(value));
            assert(quote_spine_spec(
                opts,
                metas,
                len,
                Head::Prim(prim),
                SharedEnv::Empty,
                quote_rest,
            ) == Some(fun@));
            assert(quote_spine_spec(opts, metas, len, Head::Prim(prim), whole, quote_rest)
                == Some(e@));
            assert(force_spec(opts, metas, value, quote_rest) == Some(value));
            assert(quote_spec(opts, metas, len, value, quote_fuel) == Some(e@));
        },
        _ => {
            lemma_suffices_more(fun@, env@.len(), quote_rest, quote_fuel);
            lemma_normal_form(opts, metas, env, *fun, true, eval_rest, quote_fuel);
            let fun_value = eval_spec(opts, metas, env, *fun, eval_rest)->0;
            let head = fun_value->Neutral_0;
            let spine = fun_value->Neutral_1;
            let whole = spine.pushed(Elim::FunApp(applied));
            let value = Value::Neutral(head, whole);
            if head is Prim {
                assert(reduce_spec(opts, metas, head->Prim_0, whole, (eval_rest - 1) as nat)
                    == Some(value));
            }
            assert(apply_spec(opts, metas, fun_value, applied, eval_rest) == Some(value));
            assert(eval_spec(opts, metas, env, e, eval_fuel) == Some(value));
            assert(quote_spine_spec(opts, metas, len, head, spine, quote_rest) == Some(fun@));
            assert(quote_spine_spec(opts, metas, len, head, whole, quote_rest) == Some(e@));
            assert(force_spec(opts, metas, value, quote_rest) == Some(value));
            assert(quote_spec(opts, metas, len, value, quote_fuel) == Some(e@));
        },
    }
}

/// A projection from a variable evaluates to a value that reads back as the
/// term.
proof fn lemma_projection<'core>(
    opts: EvalOpts,
    metas: Seq<Option<Value<'core>>>,
    env: ValueEnv<'core>,
    e: Expr<'core>,
    neutral: bool,
    eval_fuel: nat,
    quote_fuel: nat,
)
    requires
        e is RecordProj,
        fits(metas, env, e, neutral, eval_fuel, quote_fuel),
    ensures
        round_trip(opts, metas, env, e, neutral, eval_fuel, quote_fuel),
    decreases e, 0nat, 0nat,
{
    let len = env@.len() as usize;
    let scrut = e->RecordProj_0;
    let label = e->RecordProj_1;
    let eval_rest = (eval_fuel - 1) as nat;
    let quote_rest = (quote_fuel - 1) as nat;
    lemma_suffices_more(scrut@, env@.len(), quote_rest, quote_fuel);
    lemma_normal_form(opts, metas, env, *scrut, true, eval_rest, quote_fuel);
    let scrut_value = eval_spec(opts, metas, env, *scrut, eval_rest)->0;
    let head = scrut_value->Neutral_0;
    let spine = scrut_value->Neutral_1;
    let whole = spine.pushed(Elim::RecordProj(label));
    let value = Value::Neutral(head, whole);
    assert(project_spec(scrut_value, label) == value);
    assert(eval_spec(opts, metas, env, e, eval_fuel) == Some(value));
    assert(quote_spine_spec(opts, metas, len, head, spine, quote_rest) == Some(scrut@));
    assert(quote_spine_spec(opts, metas, len, head, whole, quote_rest) == Some(e@));
    assert(force_spec(opts, metas, value, quote_rest) == Some(value));
}

/// A match on a neutral boolean evaluates to a value that reads back as the
/// term.
proof fn lemma_match_bool<'core>(
    opts: EvalOpts,
    metas: Seq<Option<Value<'core>>>,
    env: ValueEnv<'core>,
    e: Expr<'core>,
    neutral: bool,
    eval_fuel: nat,
    quote_fuel: nat,
)
    requires
        e is MatchBool,
        fits(metas, env, e, neutral, eval_fuel, quote_fuel),
    ensures
        round_trip(opts, metas, env, e, neutral, eval_fuel, quote_fuel),
    decreases e, 0nat, 0nat,
{
    let len = env@.len() as usize;
    let cond = e->MatchBool_cond;
    let then_branch = e->MatchBool_then_branch;
    let else_branch = e->MatchBool_else_branch;
    let eval_rest = (eval_fuel - 1) as nat;
    let quote_rest = (quote_fuel - 1) as nat;
    lemma_suffices_more(cond@, env@.len(), quote_rest, quote_fuel);
    lemma_normal_form(opts, metas, env, *cond, true, eval_rest, quote_fuel);
    lemma_normal_form(opts, metas, env, *then_branch, false, quote_rest, quote_rest);
    lemma_normal_form(opts, metas, env, *else_branch, false, quote_rest, quote_rest);
    let cond_value = eval_spec(opts, metas, env, *cond, eval_rest)->0;
    let head = cond_value->Neutral_0;
    let spine = cond_value->Neutral_1;
    let whole = spine.pushed(Elim::MatchBool { env, then_branch, else_branch });
    let value = Value::Neutral(head, whole);
    assert(match_bool_spec(opts, metas, cond_value, env, then_branch, else_branch, eval_rest)
        == Some(value));
    assert(eval_spec(opts, metas, env, e, eval_fuel) == Some(value));
    assert(quote_spine_spec(opts, metas, len, head, spine, quote_rest) == Some(cond@));
    assert(quote_branch_spec(opts, metas, len, env, *then_branch, quote_rest) == Some(
        then_branch@,
    ));
    assert(quote_branch_spec(opts, metas, len, env, *else_branch, quote_rest) == Some(
        else_branch@,
    ));
    assert(quote_spine_spec(opts, metas, len, head, whole, quote_rest) == Some(e@));
    assert(force_spec(opts, metas, value, quote_rest) == Some(value));
}

/// The fields of a record from `from` on evaluate to values that read back
/// as the fields, after those that were evaluated before.
proof fn lemma_fields<'core>(
    opts: EvalOpts,
    metas: Seq<Option<Value<'core>>>,
    env: ValueEnv<'core>,
    e: Expr<'core>,
    from: nat,
    done: SharedEnv<'core, (Symbol<'core>, Value<'core>)>,
    eval_fuel: nat,
    quote_fuel: nat,
)
    requires
        e is RecordLit,
        from <= e->RecordLit_0@.len(),
        stands_for_itself(env),
        env@.len() <= usize::MAX,
        forall|i: int|
            0 <= i < e->RecordLit_0@.len() ==> fits(
                metas,
                env,
                (#[trigger] e->RecordLit_0@[i]).1,
                false,
                eval_fuel,
                quote_fuel,
            ),
        quote_fields_spec(opts, metas, env@.len() as usize, done, quote_fuel) == Some(
            e@->RecordLit_0.take(from as int),
        ),
    ensures
        eval_fields_spec(opts, metas, env, e->RecordLit_0@, from, done, eval_fuel) is Some,
        quote_fields_spec(
            opts,
            metas,
            env@.len() as usize,
            eval_fields_spec(opts, metas, env, e->RecordLit_0@, from, done, eval_fuel)->0,
            quote_fuel,
        ) == Some(e@->RecordLit_0),
    decreases e, 0nat, e->RecordLit_0@.len() - from,
{
    let fields = e->RecordLit_0;
    let len = env@.len() as usize;
    if from >= fields@.len() {
        assert(e@->RecordLit_0.take(from as int) =~= e@->RecordLit_0);
    } else {
        let field = fields@[from as int];
        assert(decreases_to!(*fields => fields[from as int]));
        lemma_normal_form(opts, metas, env, field.1, false, eval_fuel, quote_fuel);
        let value = eval_spec(opts, metas, env, field.1, eval_fuel)->0;
        let next = done.pushed((field.0, value));
        assert(quote_fields_spec(opts, metas, len, next, quote_fuel) == Some(
            e@->RecordLit_0.take(from as int).push((field.0@, field.1@)),
        ));
        assert(e@->RecordLit_0.take(from as int).push((field.0@, field.1@))
            =~= e@->RecordLit_0.take(from as int + 1));
        lemma_fields(opts, metas, env, e, from + 1, next, eval_fuel, quote_fuel);
    }
}

/// The fields of a record type from `from` on read back as the fields,
/// after those that were read back before, each in the scope of those
/// before it.
proof fn lemma_telescope<'core>(
    opts: EvalOpts,
    metas: Seq<Option<Value<'core>>>,
    depth: nat,
    env: ValueEnv<'core>,
    e: Expr<'core>,
    from: nat,
    done: Seq<(Seq<char>, Term)>,
    fuel: nat,
)
    requires
        e is RecordType,
        from <= e->RecordType_0@.len(),
        stands_for_itself(env),
        env@.len() == depth + from,
        depth + e->RecordType_0@.len() <= usize::MAX,
        forall|i: int|
            0 <= i < e->RecordType_0@.len() ==> {
                &&& normal_form(metas, (#[trigger] e->RecordType_0@[i]).1@, false)
                &&& e->RecordType_0@[i].1@.scoped((depth + i) as nat)
                &&& suffices(e->RecordType_0@[i].1@, (depth + i) as nat, fuel)
            },
        done == e@->RecordType_0.take(from as int),
    ensures
        quote_telescope_spec(
            opts,
            metas,
            env@.len() as usize,
            env,
            e->RecordType_0@,
            from,
            done,
            fuel,
        ) == Some(e@->RecordType_0),
    decreases e, 0nat, e->RecordType_0@.len() - from,
{
    let fields = e->RecordType_0;
    let len = env@.len() as usize;
    if from >= fields@.len() {
        assert(e@->RecordType_0.take(from as int) =~= e@->RecordType_0);
    } else {
        let field = fields@[from as int];
        assert(decreases_to!(*fields => fields[from as int]));
        lemma_normal_form(opts, metas, env, field.1, false, fuel, fuel);
        assert(e@->RecordType_0[from as int] == (field.0@, field.1@));
        let inner = env.pushed(var_value(len));
        assert(inner@ =~= env@.push(var_value(len)));
        let next = done.push((field.0@, field.1@));
        assert(next =~= e@->RecordType_0.take(from as int + 1));
        lemma_telescope(opts, metas, depth, inner, e, from + 1, next, fuel);
    }
}

/// The cases of a match on an integer from `from` on read back as the
/// cases, after those that were read back before.
proof fn lemma_cases<'core>(
    opts: EvalOpts,
    metas: Seq<Option<Value<'core>>>,
    env: ValueEnv<'core>,
    e: Expr<'core>,
    from: nat,
    done: Seq<(u32, Term)>,
    fuel: nat,
)
    requires
        e is MatchInt,
        from <= e->MatchInt_cases@.len(),
        forall|i: int|
            0 <= i < e->MatchInt_cases@.len() ==> fits(
                metas,
                env,
                (#[trigger] e->MatchInt_cases@[i]).1,
                false,
                fuel,
                fuel,
            ),
        done == e@->MatchInt_cases.take(from as int),
    ensures
        quote_cases_spec(
            opts,
            metas,
            env@.len() as usize,
            env,
            e->MatchInt_cases@,
            from,
            done,
            fuel,
        ) == Some(e@->MatchInt_cases),
    decreases e, 0nat, e->MatchInt_cases@.len() - from,
{
    let cases = e->MatchInt_cases;
    let len = env@.len() as usize;
    assert(e@->MatchInt_cases.len() == cases@.len());
    if from >= cases@.len() {
        assert(e@->MatchInt_cases.take(from as int) =~= e@->MatchInt_cases);
    } else {
        let case = cases@[from as int];
        assert(decreases_to!(*cases => cases[from as int]));
        lemma_normal_form(opts, metas, env, case.1, false, fuel, fuel);
        assert(quote_branch_spec(opts, metas, len, env, case.1, fuel) == Some(case.1@));
        assert(e@->MatchInt_cases[from as int] == (case.0, case.1@));
        let next = done.push((case.0, case.1@));
        assert(next =~= e@->MatchInt_cases.take(from as int + 1));
        lemma_cases(opts, metas, env, e, from + 1, next, fuel);
    }
}

/// A match on a neutral integer evaluates to a value that reads back as the
/// term.
proof fn lemma_match_int<'core>(
    opts: EvalOpts,
    metas: Seq<Option<Value<'core>>>,
    env: ValueEnv<'core>,
    e: Expr<'core>,
    neutral: bool,
    eval_fuel: nat,
    quote_fuel: nat,
)
    requires
        e is MatchInt,
        fits(metas, env, e, neutral, eval_fuel, quote_fuel),
    ensures
        round_trip(opts, metas, env, e, neutral, eval_fuel, quote_fuel),
    decreases e, 0nat, e->MatchInt_cases@.len() + 1,
{
    let len = env@.len() as usize;
    let scrut = e->MatchInt_scrut;
    let cases = e->MatchInt_cases;
    let default = e->MatchInt_default;
    let eval_rest = (eval_fuel - 1) as nat;
    let quote_rest = (quote_fuel - 1) as nat;
    lemma_suffices_more(scrut@, env@.len(), quote_rest, quote_fuel);
    lemma_normal_form(opts, metas, env, *scrut, true, eval_rest, quote_fuel);
    lemma_normal_form(opts, metas, env, *default, false, quote_rest, quote_rest);
    assert(e@->MatchInt_cases.take(0) =~= Seq::empty());
    assert forall|i: int| 0 <= i < cases@.len() implies fits(
        metas,
        env,
        (#[trigger] cases@[i]).1,
        false,
        quote_rest,
        quote_rest,
    ) by {
        let case = e@->MatchInt_cases[i];
        assert(case.1 == cases@[i].1@);
        assert(normal_form(metas, case.1, false));
        assert(case.1.scoped(env@.len()));
        assert(suffices(case.1, env@.len(), quote_rest));
    }
    lemma_cases(opts, metas, env, e, 0, Seq::empty(), quote_rest);
    let scrut_value = eval_spec(opts, metas, env, *scrut, eval_rest)->0;
    let head = scrut_value->Neutral_0;
    let spine = scrut_value->Neutral_1;
    let whole = spine.pushed(Elim::MatchInt { env, cases, default });
    let value = Value::Neutral(head, whole);
    assert(match_int_spec(opts, metas, scrut_value, env, cases, default, eval_rest) == Some(
        value,
    ));
    assert(eval_spec(opts, metas, env, e, eval_fuel) == Some(value));
    assert(quote_spine_spec(opts, metas, len, head, spine, quote_rest) == Some(scrut@));
    assert(quote_branch_spec(opts, metas, len, env, *default, quote_rest) == Some(default@));
    assert(quote_spine_spec(opts, metas, len, head, whole, quote_rest) == Some(e@));
    assert(force_spec(opts, metas, value, quote_rest) == Some(value));
}

/// A function or a function type evaluates to a value that reads back as
/// the term.
proof fn lemma_binder<'core>(
    opts: EvalOpts,
    metas: Seq<Option<Value<'core>>>,
    env: ValueEnv<'core>,
    e: Expr<'core>,
    eval_fuel: nat,
    quote_fuel: nat,
)
    requires
        e is FunType || e is FunLit,
        fits(metas, env, e, false, eval_fuel, quote_fuel),
    ensures
        round_trip(opts, metas, env, e, false, eval_fuel, quote_fuel),
    decreases e, 0nat, 0nat,
{
    let len = env@.len() as usize;
    let (param, body) = match e {
        Expr::FunType { param, body } => (param, body),
        Expr::FunLit { param, body } => (param, body),
        _ => arbitrary(),
    };
    let eval_rest = (eval_fuel - 1) as nat;
    let quote_rest = (quote_fuel - 1) as nat;
    lemma_normal_form(opts, metas, env, *param.ty, false, eval_rest, quote_rest);
    assert(suffices(body@, env@.len() + 1, quote_rest));
    assert(env@.len() < usize::MAX);
    let inner = env.pushed(var_value(len));
    assert(inner@ =~= env@.push(var_value(len)));
    lemma_normal_form(opts, metas, inner, *body, false, quote_rest, quote_rest);
    let ty_value = eval_spec(opts, metas, env, *param.ty, eval_rest)->0;
    let value = eval_spec(opts, metas, env, e, eval_fuel)->0;
    let closure = Closure { env, body };
    assert(value == match e {
        Expr::FunType { .. } => Value::FunType {
            param: FunParam { plicity: param.plicity, name: param.name, ty: &ty_value },
            body: closure,
        },
        _ => Value::FunLit {
            param: FunParam { plicity: param.plicity, name: param.name, ty: &ty_value },
            body: closure,
        },
    });
    assert(force_spec(opts, metas, value, quote_rest) == Some(value));
    assert(quote_spec(opts, metas, len, ty_value, quote_rest) == Some(param.ty@));
    let body_value = eval_spec(opts, metas, inner, *body, quote_rest)->0;
    assert(inner@.len() as usize == (len + 1) as usize);
    assert(quote_spec(opts, metas, (len + 1) as usize, body_value, quote_rest) == Some(body@));
    assert(quote_closure_spec(opts, metas, len, closure, quote_rest) == Some(body@));
}

/// Reading back undoes evaluation: a closed term in normal form evaluates to
/// a value that reads back as the term itself, given fuel that suffices for
/// the term.
pub proof fn lemma_quote_eval<'core>(
    opts: EvalOpts,
    metas: Seq<Option<Value<'core>>>,
    e: Expr<'core>,
    fuel: nat,
)
    requires
        normal_form(metas, e@, false),
        e@.scoped(0),
        suffices(e@, 0, fuel),
    ensures
        eval_spec(opts, metas, SharedEnv::Empty, e, fuel) is Some,
        quote_spec(opts, metas, 0, eval_spec(opts, metas, SharedEnv::Empty, e, fuel)->0, fuel)
            == Some(e@),
        quote_spec(
            opts,
            metas,
            0,
            eval_spec(opts, metas, SharedEnv::Empty, e, fuel)->0,
            fuel,
        )->0.alpha_eq(e@),
{
    lemma_normal_form(opts, metas, SharedEnv::Empty, e, false, fuel, fuel);
    lemma_alpha_eq_reflexive(e@);
}

/// The round trip in a state of the elaboration with no variable in scope:
/// a closed term in normal form, for which the steps that the elaborator
/// allows suffice, has a value there, as [`EvalEnv::eval`] of
/// [`Elaborator::eval_env`] finds it, and that value reads back, as
/// [`QuoteEnv::quote`] of [`Elaborator::quote_env`] reads it, as the term
/// itself.
pub proof fn lemma_elaborator_round_trip<'core>(state: Elaborator<'core, '_>, e: Expr<'core>)
    requires
        state.wf(),
        state.local_env.names@.len() == 0,
        normal_form(state.meta_env.values@, e@, false),
        e@.scoped(0),
        suffices(e@, 0, state.fuel as nat),
    ensures
        eval_spec(
            elab_opts(),
            state.meta_env.values@,
            state.local_env.values,
            e,
            state.fuel as nat,
        ) is Some,
        quote_spec(
            elab_opts(),
            state.meta_env.values@,
            state.local_env.names@.len() as usize,
            eval_spec(
                elab_opts(),
                state.meta_env.values@,
                state.local_env.values,
                e,
                state.fuel as nat,
            )->0,
            state.fuel as nat,
        ) == Some(e@),
{
    match state.local_env.values {
        SharedEnv::Empty => {},
        SharedEnv::Entry(entry) => {
            assert(state.local_env.values@.len() >= 1);
        },
    }
    lemma_quote_eval(elab_opts(), state.meta_env.values@, e, state.fuel as nat);
}


} // verus!
