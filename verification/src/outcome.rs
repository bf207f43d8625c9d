//! What elaboration comes to: the relations between the state before, the
//! expression, the term and the state after that the elaborator keeps to.
//!
//! The elaborator goes through states: it reports, makes metavariables and
//! solves them, and brings variables into scope and takes them out again.
//! For each form of expression and of pattern, a relation here says which
//! steps it takes, in terms of the states between the steps, and what the
//! term is at the end. The states between the steps are there to be found:
//! a relation holds where there are such states.

use crate::diagnostic::{Diagnostic, Severity};
use crate::elab::{
    applied_to_params, bound_env, bound_types, is_innermost, reports_unsolved, unsolved_below,
    Elaborator, LocalInfo, MetaSource,
};
use crate::env::{RelativeVar, SharedEnv};
use crate::matching::compile::{compile_spec, pat_model, RowModel, Tree};
use crate::matching::lower::{tree_fails, tree_takes, tree_term};
use crate::plicity::Plicity;
use crate::prim::Prim;
use crate::prim_type::{prim_named, prim_type_term, t_app, t_list};
use crate::printer::rendered;
use crate::quote::{quote_spec, var_value};
use crate::semantics::{
    error_value, eval_spec, force_spec, project_spec, Closure, EvalOpts, Head, Type, Value,
    ValueEnv,
};
use crate::source::{literal_at, Base, Located, TextRange};
use crate::surface;
use crate::symbol::{name_text, Symbol};
use crate::syntax::{bindings_model, lets_term, list_term, Const, Expr, FunParam, Term};
use crate::unelab::{expr_layout, names_model, Config, Prec};
use crate::unify::{unify_rel, UnifyError};
use crate::zonk::{normalize_spec, zonk_spec};
use vstd::prelude::*;
use vstd::string::StringSliceAdditionalSpecFns;

verus! {

/// Whether `after` is `before` with more at the end.
pub open spec fn extends<T>(before: Seq<T>, after: Seq<T>) -> bool {
    before.len() <= after.len() && forall|i: int|
        0 <= i < before.len() ==> #[trigger] after[i] == before[i]
}

/// Whether `after` is a state that elaboration can reach from `before` in
/// the same scope: the same variables are in scope; what was reported is
/// still there, in order, with what was reported since after it; the
/// metavariables that there were are still there, with more after them; and
/// every solution that there was is still the solution.
pub open spec fn elab_step(before: Elaborator, after: Elaborator) -> bool {
    &&& after.wf()
    &&& after.bump == before.bump
    &&& after.text == before.text
    &&& after.file_id == before.file_id
    &&& after.fuel == before.fuel
    &&& after.local_env.names@ == before.local_env.names@
    &&& after.local_env.infos@ == before.local_env.infos@
    &&& after.local_env.types@ == before.local_env.types@
    &&& after.local_env.values == before.local_env.values
    &&& extends(before.diagnostics@, after.diagnostics@)
    &&& extends(before.meta_env.sources@, after.meta_env.sources@)
    &&& extends(before.meta_env.types@, after.meta_env.types@)
    &&& before.meta_env.values@.len() <= after.meta_env.values@.len()
    &&& forall|i: int|
        0 <= i < before.meta_env.values@.len() && before.meta_env.values@[i] is Some
            ==> #[trigger] after.meta_env.values@[i] == before.meta_env.values@[i]
}

/// The options under which the elaborator evaluates.
pub open spec fn elab_opts() -> EvalOpts {
    EvalOpts { unfold_fix: false, unfold_let: true }
}

/// Whether `diagnostic` is the error `message` about `range`, with no
/// remark and no further places.
pub open spec fn is_error(
    diagnostic: Diagnostic,
    file_id: usize,
    range: TextRange,
    message: Seq<char>,
) -> bool {
    &&& diagnostic.severity == Severity::Error
    &&& diagnostic.message@ == message
    &&& diagnostic.primary_label.file_id == file_id
    &&& diagnostic.primary_label.range == range
    &&& diagnostic.primary_label.message is None
    &&& diagnostic.secondary_labels@.len() == 0
}

/// Whether `after` is `before` with one error more: `message` about
/// `range`.
pub open spec fn reported(
    before: Elaborator,
    after: Elaborator,
    range: TextRange,
    message: Seq<char>,
) -> bool {
    &&& after.meta_env == before.meta_env
    &&& after.local_env == before.local_env
    &&& after.diagnostics@.len() == before.diagnostics@.len() + 1
    &&& is_error(after.diagnostics@.last(), before.file_id, range, message)
}

/// Whether nothing was reported, no metavariable made or solved, and the
/// scope left as it was between `before` and `after`.
pub open spec fn silent(before: Elaborator, after: Elaborator) -> bool {
    &&& after.meta_env == before.meta_env
    &&& after.local_env == before.local_env
    &&& after.diagnostics@ == before.diagnostics@
}

/// What is reported where an evaluation needs more steps than the
/// elaborator allows.
pub open spec fn limit_message() -> Seq<char> {
    "Evaluation limit reached"@
}

/// Whether `r` is the value `outcome`, and nothing was reported; or, where
/// there is none, the error value, and that the limit was reached was
/// reported about `range`.
pub open spec fn value_or_reported<'core>(
    before: Elaborator,
    after: Elaborator,
    range: TextRange,
    outcome: Option<Value<'core>>,
    r: Value<'core>,
) -> bool {
    match outcome {
        Some(value) => r == value && silent(before, after),
        None => r == error_value::<'core>() && reported(before, after, range, limit_message()),
    }
}

/// Whether `r` is a term of model `outcome`, and nothing was reported; or,
/// where there is none, the error term, and that the limit was reached was
/// reported about `range`.
pub open spec fn term_or_reported(
    before: Elaborator,
    after: Elaborator,
    range: TextRange,
    outcome: Option<Term>,
    r: Expr,
) -> bool {
    match outcome {
        Some(term) => r@ == term && silent(before, after),
        None => r == Expr::Error && reported(before, after, range, limit_message()),
    }
}

/// The constant that a literal in the text stands for, if it stands for
/// one: a boolean as it is; for an integer, the value of the digits at
/// `range`, read in the base of the literal.
pub open spec fn const_value(text: Seq<u8>, range: TextRange, lit: surface::Const) -> Option<Const> {
    let int_value = |base: Base|
        match literal_at(text, range, base) {
            Some(n) => Some(Const::Int(n)),
            None => None,
        };
    match lit {
        surface::Const::Bool(b) => Some(Const::Bool(b)),
        surface::Const::DecInt => int_value(Base::Dec),
        surface::Const::BinInt => int_value(Base::Bin),
        surface::Const::HexInt => int_value(Base::Hex),
    }
}

/// The type of a constant.
pub open spec fn const_type<'core>(lit: Const) -> Value<'core> {
    match lit {
        Const::Bool(_) => Value::Prim(Prim::Bool),
        Const::Int(_) => Value::Prim(Prim::Int),
    }
}

/// What is reported of a name that nothing binds.
pub open spec fn unbound_message(name: Seq<char>) -> Seq<char> {
    "Unbound variable: `"@ + name + "`"@
}

/// Whether `after` is `before` with one metavariable more, unsolved, from
/// `source` and of type `ty`.
pub open spec fn made_meta<'core>(
    before: Elaborator<'core, '_>,
    after: Elaborator<'core, '_>,
    source: MetaSource<'core>,
    ty: Type<'core>,
) -> bool {
    &&& after.meta_env.sources@ == before.meta_env.sources@.push(source)
    &&& after.meta_env.types@ == before.meta_env.types@.push(ty)
    &&& after.meta_env.values@ == before.meta_env.values@.push(None)
}

/// The model of a fresh metavariable of the state `before`: the
/// metavariable applied to the parameters in scope, from the outermost to
/// the innermost.
pub open spec fn fresh_term(before: Elaborator) -> Term {
    applied_to_params(
        before.meta_env.sources@.len(),
        before.local_env.infos@,
        before.local_env.infos@.len(),
    )
}

/// What a literal elaborates to: the constant that it stands for, with the
/// type of that constant, and nothing is reported; or, where it stands for
/// none, the error term, and that is reported.
pub open spec fn const_outcome<'core>(
    before: Elaborator<'core, '_>,
    after: Elaborator<'core, '_>,
    range: TextRange,
    lit: surface::Const,
    r: (Expr<'core>, Type<'core>),
) -> bool {
    match const_value(before.text.spec_bytes(), range, lit) {
        Some(value) => {
            &&& r == (Expr::Lit(value), const_type::<'core>(value))
            &&& silent(before, after)
        },
        None => {
            &&& r == (Expr::Error, error_value::<'core>())
            &&& reported(before, after, range, "Invalid integer literal"@)
        },
    }
}

/// What a name elaborates to: the innermost variable in scope of that name,
/// with its type; else the primitive of that name, with the value of its
/// type; else the error term, and the name is reported.
pub open spec fn var_outcome<'core>(
    before: Elaborator<'core, '_>,
    after: Elaborator<'core, '_>,
    range: TextRange,
    name: Symbol,
    r: (Expr<'core>, Type<'core>),
) -> bool {
    &&& forall|index: nat| #[trigger]
        is_innermost(before.local_env.names@, name, index) ==> {
            &&& index <= usize::MAX
            &&& r == (
                Expr::LocalVar(RelativeVar { index: index as usize }),
                before.local_env.types@[before.local_env.types@.len() - 1 - index],
            )
            &&& silent(before, after)
        }
    &&& (forall|index: nat| !#[trigger] is_innermost(before.local_env.names@, name, index))
        ==> match prim_named(name@) {
        Some(prim) => exists|ty: Expr<'core>|
            {
                &&& #[trigger] ty@ == prim_type_term(prim)
                &&& match eval_spec(
                    elab_opts(),
                    before.meta_env.values@,
                    SharedEnv::Empty,
                    ty,
                    before.fuel as nat,
                ) {
                    Some(value) => r == (Expr::Prim(prim), value) && silent(before, after),
                    None => r == (Expr::Error, error_value::<'core>()) && reported(
                        before,
                        after,
                        range,
                        limit_message(),
                    ),
                }
            },
        None => {
            &&& r == (Expr::Error, error_value::<'core>())
            &&& reported(before, after, range, unbound_message(name@))
        },
    }
}

/// Whether `diagnostic` reports, about `range`, that the type `found` is
/// not the type `expected`: an error whose message names the two types as
/// they are shown in the state `state`.
pub open spec fn is_mismatch<'core>(
    diagnostic: Diagnostic,
    state: Elaborator<'core, '_>,
    range: TextRange,
    found: Type<'core>,
    expected: Type<'core>,
) -> bool {
    &&& diagnostic.severity == Severity::Error
    &&& diagnostic.primary_label.file_id == state.file_id
    &&& diagnostic.primary_label.range == range
    &&& diagnostic.primary_label.message is None
    &&& diagnostic.secondary_labels@.len() == 0
    &&& exists|expected_text: Seq<char>, found_text: Seq<char>|
        {
            &&& #[trigger] mismatch_message(expected_text, found_text) == diagnostic.message@
            &&& value_shown(state, expected, expected_text)
            &&& value_shown(state, found, found_text)
        }
}

/// What is reported where a type is not the one that was expected.
pub open spec fn mismatch_message(expected: Seq<char>, found: Seq<char>) -> Seq<char> {
    "Type mismatch: expected `"@ + expected + "`, found `"@ + found + "`"@
}

/// Whether `after` and `r` are what comes of holding the term `expr`, of
/// type `from`, to the type `to` in the state `before`: the two types are
/// unified, which may solve metavariables; where that succeeds, `r` is the
/// term and nothing is reported; where it fails, `r` is the error term and
/// the failure is reported about `range`.
pub open spec fn held_to<'core>(
    before: Elaborator<'core, '_>,
    after: Elaborator<'core, '_>,
    range: TextRange,
    expr: Expr<'core>,
    from: Type<'core>,
    to: Type<'core>,
    r: Expr<'core>,
) -> bool {
    exists|outcome: Result<(), UnifyError>|
        {
            &&& #[trigger] unify_rel(
                elab_opts(),
                before.local_env.types@,
                before.local_env.names@.len() as usize,
                from,
                to,
                before.fuel as nat,
                before.meta_env.values@,
                outcome,
                after.meta_env.values@,
            )
            &&& after.meta_env.sources == before.meta_env.sources
            &&& after.meta_env.types == before.meta_env.types
            &&& match outcome {
                Ok(_) => r == expr && after.diagnostics@ == before.diagnostics@,
                Err(error) => {
                    &&& r == Expr::Error
                    &&& after.diagnostics@.len() == before.diagnostics@.len() + 1
                    &&& if error == UnifyError::OutOfFuel {
                        is_error(after.diagnostics@.last(), before.file_id, range, limit_message())
                    } else {
                        is_mismatch(after.diagnostics@.last(), after, range, from, to)
                    }
                },
            }
        }
}

/// Marks the state that [`hole_outcome`] speaks of.
pub open spec fn hole_steps(typed: Elaborator) -> bool {
    true
}

/// What a hole elaborates to: a fresh metavariable is made for its type,
/// as [`fresh_typed`] says, and its value is the type; then one of that
/// type is made for the term, which is that metavariable applied to the
/// parameters in scope.
pub open spec fn hole_outcome<'core, 'text>(
    before: Elaborator<'core, 'text>,
    after: Elaborator<'core, 'text>,
    range: TextRange,
    r: (Expr<'core>, Type<'core>),
) -> bool {
    exists|typed: Elaborator<'core, 'text>|
        {
            &&& #[trigger] hole_steps(typed)
            &&& fresh_typed(before, typed, range, MetaSource::HoleType { range }, r.1)
            &&& elab_step(typed, after)
            &&& made_meta(typed, after, MetaSource::HoleExpr { range }, r.1)
            &&& after.diagnostics@ == typed.diagnostics@
            &&& r.0@ == fresh_term(typed)
        }
}

/// The term as it is shown in the state `state`: with the solutions of the
/// metavariables in their place; the error term where putting them there
/// needs more steps than the elaborator allows.
pub open spec fn shown<'core>(state: Elaborator<'core, '_>, e: Expr<'core>) -> Term {
    match zonk_spec(
        elab_opts(),
        state.meta_env.values@,
        state.local_env.values,
        state.local_env.values.level(),
        e,
        state.fuel as nat,
    ) {
        Some(term) => term,
        None => Term::Error,
    }
}

/// Marks the two terms that [`concluded`] speaks of.
pub open spec fn shown_from(normal: Expr, quoted: Expr) -> bool {
    true
}

/// Whether `after` and `r` are what comes of concluding the elaboration of
/// a term `term` of type `ty` in the state `before`. The type is read back;
/// the metavariables without a solution are reported, in order; and `r` is
/// the term, or with `normalize` its normal form, and the type that was read
/// back, both as they are shown. Where reading the type back or normalizing
/// needs more steps than the elaborator allows, the error term stands for
/// what it would have given, and for the type that is reported first.
pub open spec fn concluded<'core>(
    before: Elaborator<'core, '_>,
    after: Elaborator<'core, '_>,
    range: TextRange,
    term: Expr<'core>,
    ty: Type<'core>,
    normalize: bool,
    r: (Expr<'core>, Expr<'core>),
) -> bool {
    let read_back = quote_spec(
        elab_opts(),
        before.meta_env.values@,
        before.local_env.names@.len() as usize,
        ty,
        before.fuel as nat,
    );
    let normal_form = normalize_spec(
        before.meta_env.values@,
        before.local_env.values,
        term,
        before.fuel as nat,
    );
    let unsolved = unsolved_below(before.meta_env.values@, before.meta_env.values@.len());
    let start = before.diagnostics@.len() + (if read_back is Some {
        0int
    } else {
        1int
    });
    &&& after.wf()
    &&& after.bump == before.bump
    &&& after.text == before.text
    &&& after.file_id == before.file_id
    &&& after.fuel == before.fuel
    &&& after.local_env == before.local_env
    &&& after.meta_env == before.meta_env
    &&& after.diagnostics@.len() == start + unsolved.len()
    &&& after.diagnostics@.take(before.diagnostics@.len() as int) == before.diagnostics@
    &&& read_back is None ==> is_error(
        after.diagnostics@[before.diagnostics@.len() as int],
        before.file_id,
        range,
        limit_message(),
    )
    &&& forall|k: int|
        0 <= k < unsolved.len() ==> reports_unsolved(
            #[trigger] after.diagnostics@[start + k],
            before.file_id,
            unsolved[k],
            before.meta_env.sources@[unsolved[k] as int],
        )
    &&& exists|normal: Expr<'core>, quoted: Expr<'core>|
        {
            &&& #[trigger] shown_from(normal, quoted)
            &&& if normalize {
                match normal_form {
                    Some(t) => normal@ == t,
                    None => normal == Expr::Error,
                }
            } else {
                normal == term
            }
            &&& match read_back {
                Some(t) => quoted@ == t,
                None => quoted == Expr::Error,
            }
            &&& r.0@ == shown(before, normal)
            &&& r.1@ == shown(before, quoted)
        }
}

/// Whether a type is that of a function with a parameter that is written
/// out.
pub open spec fn takes_explicit(ty: Value) -> bool {
    ty matches Value::FunType { param, .. } && param.plicity == Plicity::Explicit
}

/// Marks the states, the type, and the term with its type that
/// [`converted`] speaks of.
pub open spec fn convert_steps(
    forced: Elaborator,
    mid: Elaborator,
    target: Value,
    applied: Expr,
    ty: Value,
) -> bool {
    true
}

/// Whether `after` and `r` are what comes of converting the term `expr`
/// from the type `from` to the type `to` in the state `before`:
///
/// - `to` is forced;
/// - where that is the type of a function with a parameter that is written
///   out, and `expr` is no function literal, `expr` is applied to implicit
///   arguments as [`implicits_inserted`] says; in every other case the term
///   and its type stay `expr` and `from`, and the state as it is;
/// - the term is held to the type `to` as [`held_to`] says.
pub open spec fn converted<'core, 'text>(
    before: Elaborator<'core, 'text>,
    after: Elaborator<'core, 'text>,
    range: TextRange,
    expr: Expr<'core>,
    from: Type<'core>,
    to: Type<'core>,
    r: Expr<'core>,
) -> bool {
    exists|
        forced: Elaborator<'core, 'text>,
        mid: Elaborator<'core, 'text>,
        target: Value<'core>,
        applied: Expr<'core>,
        ty: Type<'core>,
    |
        {
            &&& #[trigger] convert_steps(forced, mid, target, applied, ty)
            &&& value_or_reported(
                before,
                forced,
                range,
                force_spec(elab_opts(), before.meta_env.values@, to, before.fuel as nat),
                target,
            )
            &&& if takes_explicit(target) && !(expr is FunLit) {
                implicits_inserted(
                    forced,
                    mid,
                    range,
                    expr,
                    from,
                    (applied, ty),
                    forced.fuel as nat,
                )
            } else {
                mid == forced && applied == expr && ty == from
            }
            &&& held_to(mid, after, range, applied, ty, to, r)
        }
}

/// What an expression without parts elaborates to, and its type: the error
/// term for an error, and for a literal, a name and a hole what
/// [`const_outcome`], [`var_outcome`] and [`hole_outcome`] say.
pub open spec fn leaf_outcome<'core>(
    before: Elaborator<'core, '_>,
    after: Elaborator<'core, '_>,
    expr: Located<surface::Expr>,
    r: (Expr<'core>, Type<'core>),
) -> bool {
    match expr.data {
        surface::Expr::Error => r == (Expr::Error, error_value::<'core>()) && silent(
            before,
            after,
        ),
        surface::Expr::Const(lit) => const_outcome(before, after, expr.range, lit, r),
        surface::Expr::LocalVar(name) => var_outcome(before, after, expr.range, name, r),
        surface::Expr::Hole => hole_outcome(before, after, expr.range, r),
        _ => true,
    }
}

/// Whether `after` and `r` are what comes of evaluating the term `expr`
/// in the state `before`: `r` is its value; or, where the evaluation needs
/// more steps than the elaborator allows, the error value, and that is
/// reported about `range`.
pub open spec fn evaluated<'core>(
    before: Elaborator<'core, '_>,
    after: Elaborator<'core, '_>,
    range: TextRange,
    expr: Expr<'core>,
    r: Value<'core>,
) -> bool {
    value_or_reported(
        before,
        after,
        range,
        eval_spec(
            elab_opts(),
            before.meta_env.values@,
            before.local_env.values,
            expr,
            before.fuel as nat,
        ),
        r,
    )
}

/// Marks the states and the term that [`synth_outcome`] speaks of for an
/// expression with its type.
pub open spec fn ann_steps(checked: Elaborator, valued: Elaborator, ty_term: Expr) -> bool {
    true
}

/// Marks the states and the terms that [`synth_outcome`] and
/// [`check_outcome`] speak of for a conditional.
pub open spec fn if_steps(
    first: Elaborator,
    second: Elaborator,
    cond_term: Expr,
    then_term: Expr,
    else_term: Expr,
) -> bool {
    true
}

/// Marks the states, the terms and the value that [`synth_outcome`] speaks
/// of for an arrow.
pub open spec fn arrow_steps(
    checked: Elaborator,
    valued: Elaborator,
    inner: Elaborator,
    inner_after: Elaborator,
    lhs_term: Expr,
    lhs_value: Value,
    rhs_term: Expr,
) -> bool {
    true
}

/// Whether `inner` is `outer` with one parameter more in scope, of the
/// name `name` and the type `ty`, which stands for itself.
pub open spec fn param_entered<'core>(
    outer: Elaborator<'core, '_>,
    inner: Elaborator<'core, '_>,
    name: Option<Symbol<'core>>,
    ty: Type<'core>,
) -> bool {
    &&& entered(outer, inner)
    &&& inner.local_env.infos@.last() == LocalInfo::Param
    &&& inner.local_env.names@.last() == name
    &&& inner.local_env.types@.last() == ty
    &&& inner.local_env.values == outer.local_env.values.pushed(
        var_value(outer.local_env.names@.len() as usize),
    )
}

/// Marks the states, the values and the terms that [`implicits_inserted`]
/// speaks of for one implicit argument.
pub open spec fn inserted_steps(
    made: Elaborator,
    valued: Elaborator,
    applied_state: Elaborator,
    arg: Expr,
    arg_value: Value,
    applied: Expr,
    next_ty: Value,
) -> bool {
    true
}

/// Whether `after` and `r`, a term and its type, are what comes of applying
/// the term `expr`, of type `ty`, to implicit arguments in the state
/// `before`, at most `budget` of them:
///
/// - with no budget left, the term and its type are `expr` and `ty`;
/// - else `ty` is forced. Where that is the type of a function with an
///   implicit parameter, one metavariable is made for the argument, of the
///   type of the parameter and with the name of the parameter and `range`
///   as its source; the term is `expr` applied to it, implicitly, and its
///   type the body of the function type for the value of the
///   metavariable; and the same is done once more with that term and type,
///   on one less of the budget;
/// - where it is any other type, the term is `expr` and its type the
///   forced type.
///
/// An evaluation that needs more steps than the elaborator allows is
/// reported about `range`, and the error value stands for its result.
pub open spec fn implicits_inserted<'core, 'text>(
    before: Elaborator<'core, 'text>,
    after: Elaborator<'core, 'text>,
    range: TextRange,
    expr: Expr<'core>,
    ty: Type<'core>,
    r: (Expr<'core>, Type<'core>),
    budget: nat,
) -> bool
    decreases budget,
{
    if budget == 0 {
        r == (expr, ty) && after == before
    } else {
        exists|found: Elaborator<'core, 'text>, forced: Value<'core>|
            {
                &&& #[trigger] forced_steps(found, forced)
                &&& value_or_reported(
                    before,
                    found,
                    range,
                    force_spec(elab_opts(), before.meta_env.values@, ty, before.fuel as nat),
                    forced,
                )
                &&& match forced {
                    Value::FunType { param, body } => if param.plicity == Plicity::Implicit {
                        exists|
                            made: Elaborator<'core, 'text>,
                            valued: Elaborator<'core, 'text>,
                            applied_state: Elaborator<'core, 'text>,
                            arg: Expr<'core>,
                            arg_value: Value<'core>,
                            applied: Expr<'core>,
                            next_ty: Value<'core>,
                        |
                            {
                                &&& #[trigger] inserted_steps(
                                    made,
                                    valued,
                                    applied_state,
                                    arg,
                                    arg_value,
                                    applied,
                                    next_ty,
                                )
                                &&& elab_step(found, made)
                                &&& made_meta(
                                    found,
                                    made,
                                    MetaSource::ImplicitArg { range, name: param.name },
                                    *param.ty,
                                )
                                &&& made.diagnostics@ == found.diagnostics@
                                &&& arg@ == fresh_term(found)
                                &&& evaluated(made, valued, range, arg, arg_value)
                                &&& applied@ == Term::FunApp {
                                    fun: Box::new(expr@),
                                    plicity: Plicity::Implicit,
                                    arg: Box::new(arg@),
                                }
                                &&& closure_applied(
                                    valued,
                                    applied_state,
                                    range,
                                    body,
                                    arg_value,
                                    next_ty,
                                )
                                &&& implicits_inserted(
                                    applied_state,
                                    after,
                                    range,
                                    applied,
                                    next_ty,
                                    r,
                                    (budget - 1) as nat,
                                )
                            }
                    } else {
                        r == (expr, forced) && after == found
                    },
                    _ => r == (expr, forced) && after == found,
                }
            }
    }
}

/// Whether `diagnostic` reports that an argument at `arg_range` is written
/// out where the function at `fun_range` takes an implicit one, or the
/// other way round: an error with a remark on the argument and, at the
/// function, the type `fun_ty` of the function as it is shown in the state
/// `state`.
pub open spec fn is_plicity_error<'core>(
    diagnostic: Diagnostic,
    state: Elaborator<'core, '_>,
    fun_ty: Type<'core>,
    fun_range: TextRange,
    arg_range: TextRange,
    plicity: Plicity,
) -> bool {
    let file_id = state.file_id;
    &&& diagnostic.severity == Severity::Error
    &&& diagnostic.message@ == match plicity {
        Plicity::Implicit => "Applied implicit argument when explicit argument was expected"@,
        Plicity::Explicit => "Applied explicit argument when implicit argument was expected"@,
    }
    &&& diagnostic.primary_label.file_id == file_id
    &&& diagnostic.primary_label.range == arg_range
    &&& diagnostic.primary_label.message is Some
    &&& diagnostic.primary_label.message->0@ == match plicity {
        Plicity::Implicit => "implicit argument"@,
        Plicity::Explicit => "explicit argument"@,
    }
    &&& diagnostic.secondary_labels@.len() == 1
    &&& diagnostic.secondary_labels@[0].file_id == file_id
    &&& diagnostic.secondary_labels@[0].range == fun_range
    &&& diagnostic.secondary_labels@[0].message is Some
    &&& exists|shown: Seq<char>|
        {
            &&& #[trigger] function_type_remark(shown)
                == diagnostic.secondary_labels@[0].message->0@
            &&& value_shown(state, fun_ty, shown)
        }
}

/// The remark that tells the type of a function.
pub open spec fn function_type_remark(shown: Seq<char>) -> Seq<char> {
    "function has type "@ + shown
}

/// What is reported of a term that is applied and is no function.
pub open spec fn not_function_message(shown: Seq<char>) -> Seq<char> {
    "Expected function, found `"@ + shown + "`"@
}

/// Marks the states, the terms and the types that [`app_outcome`] speaks
/// of.
pub open spec fn app_steps(
    found: Elaborator,
    applied: Elaborator,
    forced: Elaborator,
    fun_first: (Expr, Value),
    fun_applied: (Expr, Value),
    fun_ty: Value,
) -> bool {
    true
}

/// Marks the states, the term and the value of the argument that
/// [`app_outcome`] speaks of.
pub open spec fn arg_steps(checked: Elaborator, valued: Elaborator, term: Expr, value: Value) -> bool {
    true
}

/// The environment `env` with the projections of the fields from `from` up
/// to `upto` from the record `scrut` after it.
pub open spec fn projected_env<'core>(
    env: ValueEnv<'core>,
    fields: Seq<(Symbol<'core>, Expr<'core>)>,
    scrut: Value<'core>,
    from: nat,
    upto: nat,
) -> ValueEnv<'core>
    decreases upto,
{
    if upto <= from || upto > fields.len() {
        env
    } else {
        projected_env(env, fields, scrut, from, (upto - 1) as nat).pushed(
            project_spec(scrut, fields[upto - 1].0),
        )
    }
}

/// Whether `at` is the place of the first field from `from` on with the
/// label `label`.
pub open spec fn is_field(
    fields: Seq<(Symbol, Expr)>,
    label: Seq<char>,
    from: nat,
    at: nat,
) -> bool {
    &&& from <= at < fields.len()
    &&& fields[at as int].0@ == label
    &&& forall|k: int| from <= k < at ==> (#[trigger] fields[k]).0@ != label
}

/// What is reported of a term that is projected from and is no record.
pub open spec fn not_record_message(shown: Seq<char>) -> Seq<char> {
    "Expected record, found `"@ + shown + "`"@
}

/// What is reported of a label that a record has no field for.
pub open spec fn no_field_message(label: Seq<char>) -> Seq<char> {
    "Field `"@ + label + "` not found"@
}

/// Marks the states, the term and the types that [`proj_outcome`] speaks
/// of.
pub open spec fn proj_steps(
    found: Elaborator,
    forced: Elaborator,
    scrut: (Expr, Value),
    scrut_ty: Value,
) -> bool {
    true
}

/// Marks the state and the value of the record that [`proj_outcome`]
/// speaks of.
pub open spec fn field_steps(valued: Elaborator, scrut_value: Value) -> bool {
    true
}

/// Whether `after` and `r`, a term and its type, are what comes of finding
/// the type of the projection `expr` in the state `before`. The type of the
/// record is found and forced:
///
/// - where it is a record type, the record is evaluated; where the type
///   has a field of the label, the term is the projection, and its type the
///   type of the first such field, in which the fields before it stand for
///   the projections of the record; else the label is reported;
/// - where it is the error value, nothing more is reported;
/// - else the term is reported to be no record.
pub open spec fn proj_outcome<'core, 'text>(
    before: Elaborator<'core, 'text>,
    expr: Located<surface::Expr>,
    r: (Expr<'core>, Type<'core>),
    after: Elaborator<'core, 'text>,
) -> bool
    decreases expr, 0nat, 0nat,
{
    match expr.data {
        surface::Expr::RecordProj { scrut, name } => exists|
            found: Elaborator<'core, 'text>,
            forced: Elaborator<'core, 'text>,
            scrut_found: (Expr<'core>, Type<'core>),
            scrut_ty: Type<'core>,
        |
            {
                &&& #[trigger] proj_steps(found, forced, scrut_found, scrut_ty)
                &&& synth_outcome(before, *scrut, scrut_found, found)
                &&& value_or_reported(
                    found,
                    forced,
                    scrut.range,
                    force_spec(
                        elab_opts(),
                        found.meta_env.values@,
                        scrut_found.1,
                        found.fuel as nat,
                    ),
                    scrut_ty,
                )
                &&& match scrut_ty {
                    Value::RecordType(telescope) => exists|
                        valued: Elaborator<'core, 'text>,
                        scrut_value: Value<'core>,
                    |
                        {
                            &&& #[trigger] field_steps(valued, scrut_value)
                            &&& evaluated(forced, valued, scrut.range, scrut_found.0, scrut_value)
                            &&& forall|at: nat| #[trigger]
                                is_field(telescope.fields@, name.data@, telescope.start as nat, at)
                                    ==> {
                                    &&& value_or_reported(
                                        valued,
                                        after,
                                        expr.range,
                                        eval_spec(
                                            elab_opts(),
                                            valued.meta_env.values@,
                                            projected_env(
                                                telescope.env,
                                                telescope.fields@,
                                                scrut_value,
                                                telescope.start as nat,
                                                at,
                                            ),
                                            telescope.fields@[at as int].1,
                                            valued.fuel as nat,
                                        ),
                                        r.1,
                                    )
                                    &&& r.0@ == Term::RecordProj(
                                        Box::new(scrut_found.0@),
                                        name.data@,
                                    )
                                }
                            &&& (forall|at: nat| !#[trigger]
                                is_field(telescope.fields@, name.data@, telescope.start as nat, at))
                                ==> {
                                &&& r == (Expr::Error, error_value::<'core>())
                                &&& reported(valued, after, name.range, no_field_message(name.data@))
                            }
                        },
                    Value::Neutral(Head::Error, _) => {
                        &&& r == (Expr::Error, error_value::<'core>())
                        &&& silent(forced, after)
                    },
                    _ => {
                        &&& r == (Expr::Error, error_value::<'core>())
                        &&& after.meta_env == forced.meta_env
                        &&& after.diagnostics@.len() == forced.diagnostics@.len() + 1
                        &&& exists|shown: Seq<char>|
                            {
                                &&& is_error(
                                    after.diagnostics@.last(),
                                    before.file_id,
                                    scrut.range,
                                    #[trigger] not_record_message(shown),
                                )
                                &&& value_shown(forced, scrut_ty, shown)
                            }
                    },
                }
            },
        _ => true,
    }
}

/// Whether `after` and `r` are what comes of making a metavariable for a
/// type from `source` in the state `before`: `r` is the value of the
/// metavariable applied to the parameters in scope.
pub open spec fn fresh_typed<'core>(
    before: Elaborator<'core, '_>,
    after: Elaborator<'core, '_>,
    range: TextRange,
    source: MetaSource<'core>,
    r: Value<'core>,
) -> bool {
    &&& elab_step(before, after)
    &&& made_meta(before, after, source, Value::Prim(Prim::Type))
    &&& exists|expr: Expr<'core>|
        {
            &&& #[trigger] expr@ == fresh_term(before)
            &&& match eval_spec(
                elab_opts(),
                after.meta_env.values@,
                before.local_env.values,
                expr,
                before.fuel as nat,
            ) {
                Some(value) => r == value && after.diagnostics@ == before.diagnostics@,
                None => {
                    &&& r == error_value::<'core>()
                    &&& after.diagnostics@.len() == before.diagnostics@.len() + 1
                    &&& is_error(after.diagnostics@.last(), before.file_id, range, limit_message())
                },
            }
        }
}

/// Whether `after` and `r` are what comes of reading the value `value`
/// back in the state `before`.
pub open spec fn read_back<'core>(
    before: Elaborator<'core, '_>,
    after: Elaborator<'core, '_>,
    range: TextRange,
    value: Value<'core>,
    r: Expr<'core>,
) -> bool {
    term_or_reported(
        before,
        after,
        range,
        quote_spec(
            elab_opts(),
            before.meta_env.values@,
            before.local_env.names@.len() as usize,
            value,
            before.fuel as nat,
        ),
        r,
    )
}

/// Whether `after` and `r`, a term and its value, are the type of a binder
/// of the name `name`: its annotation and the value of that, where it has
/// one; else a fresh metavariable, and what it reads back as.
pub open spec fn binder_typed<'core, 'text>(
    before: Elaborator<'core, 'text>,
    after: Elaborator<'core, 'text>,
    range: TextRange,
    name: Option<Symbol<'core>>,
    annotation: Option<Expr<'core>>,
    r: (Expr<'core>, Type<'core>),
) -> bool {
    match annotation {
        Some(ty) => r.0 == ty && evaluated(before, after, range, ty, r.1),
        None => exists|made: Elaborator<'core, 'text>|
            {
                &&& #[trigger] made_step(made)
                &&& fresh_typed(before, made, range, MetaSource::PatType { range, name }, r.1)
                &&& read_back(made, after, range, r.1, r.0)
            },
    }
}

/// Marks the state that [`binder_typed`] speaks of.
pub open spec fn made_step(made: Elaborator) -> bool {
    true
}

/// Marks the states and the annotation that [`Elaborator::enter_fun_param`]
/// speaks of.
pub open spec fn entering_steps(
    annotated: Elaborator,
    typed: Elaborator,
    annotation: Option<Expr>,
) -> bool {
    true
}

/// Marks the state, the pattern and the bindings that [`pattern_entered`]
/// speaks of.
pub open spec fn pattern_steps(
    patterned: Elaborator,
    pat: crate::syntax::Pat,
    found: Seq<(Option<Symbol>, Expr, Expr)>,
) -> bool {
    true
}

/// Whether `after` and `kept` are what comes of bringing the variables of
/// the pattern `pat` into scope in the state `before`, where `expr` is the
/// value that the pattern names, `value` its value and `ty` its type. A name
/// and a wildcard bring nothing into scope: the value itself is what a name
/// names. A pattern that takes the value apart is elaborated as
/// [`pat_outcome`] says, not to fail, and its bindings are brought into
/// scope as [`bindings_entered`] says; `kept` are those that are in scope.
pub open spec fn pattern_entered<'core, 'text>(
    before: Elaborator<'core, 'text>,
    pat: Located<surface::Pat>,
    expr: Expr<'core>,
    value: Value<'core>,
    ty: Type<'core>,
    kept: Seq<Binding<'core>>,
    after: Elaborator<'core, 'text>,
) -> bool {
    if destructures(pat) {
        exists|
            patterned: Elaborator<'core, 'text>,
            core_pat: crate::syntax::Pat<'core>,
            found: Seq<Binding<'core>>,
        |
            {
                &&& #[trigger] pattern_steps(patterned, core_pat, found)
                &&& pat_outcome(
                    before,
                    pat,
                    expr,
                    value,
                    ty,
                    before.local_env.names@.len() as usize,
                    Seq::empty(),
                    false,
                    core_pat,
                    found,
                    patterned,
                )
                &&& bindings_entered(patterned, after, pat.range, found, kept)
            }
    } else {
        kept.len() == 0 && after == before
    }
}

/// The variable that was bound last, as a term.
pub open spec fn last_var<'core>() -> Expr<'core> {
    Expr::LocalVar(RelativeVar { index: 0 })
}

/// Marks the states, the annotation, the name and the type of a parameter
/// that [`fun_type_outcome`] and [`fun_lit_outcome`] speak of.
pub open spec fn param_steps(
    annotated: Elaborator,
    typed: Elaborator,
    inner: Elaborator,
    annotation: Option<Expr>,
    name: Option<Symbol>,
    ty: (Expr, Value),
) -> bool {
    true
}

/// Marks the states and the term of what follows a parameter that
/// [`fun_type_outcome`] speaks of.
pub open spec fn rest_steps(
    deep: Elaborator,
    inner_after: Elaborator,
    back: Elaborator,
    kept: Seq<(Option<Symbol>, Expr, Expr)>,
    rest: Expr,
) -> bool {
    true
}

/// Whether the states, the annotation, the name and the type are what
/// comes of bringing the parameter `param` into scope in the state
/// `before`: its annotation, where it has one, is held to the type of
/// types; its type is as [`binder_typed`] says; and it is in scope in
/// `inner`, under the name that its pattern binds, if it binds one.
pub open spec fn param_outcome<'core, 'text>(
    before: Elaborator<'core, 'text>,
    param: Located<surface::FunParam>,
    annotated: Elaborator<'core, 'text>,
    typed: Elaborator<'core, 'text>,
    inner: Elaborator<'core, 'text>,
    annotation: Option<Expr<'core>>,
    name: Option<Symbol<'core>>,
    ty: (Expr<'core>, Type<'core>),
) -> bool
    decreases param, 3nat, 0nat,
{
    &&& match param.data.ty {
        Some(written) => annotation is Some && check_outcome(
            before,
            written,
            Value::Prim(Prim::Type),
            annotation->0,
            annotated,
        ),
        None => annotation is None && annotated == before,
    }
    &&& name_text(name) == name_text(binder_of(param.data.pat))
    &&& binder_typed(annotated, typed, param.range, name, annotation, ty)
    &&& param_entered(typed, inner, name, ty.1)
}

/// Whether `after` and `r` are what comes of elaborating the parameters
/// from `from` on of the function type `expr`, and its body, in the state
/// `before`. After the last parameter, the body is held to the type of
/// types. A parameter is brought into scope as [`param_outcome`] says, and
/// the variables of its pattern as [`pattern_entered`] says. What follows is
/// elaborated in that scope, the scope is left, and the term is the function
/// type from the type of the parameter to what follows under the bindings of
/// the pattern.
pub open spec fn fun_type_outcome<'core, 'text>(
    before: Elaborator<'core, 'text>,
    expr: Located<surface::Expr>,
    from: nat,
    r: Expr<'core>,
    after: Elaborator<'core, 'text>,
) -> bool
    decreases expr, 0nat, (match expr.data {
        surface::Expr::FunType { params, .. } => params@.len() - from,
        _ => 0,
    }),
{
    match expr.data {
        surface::Expr::FunType { params, body } => if from >= params@.len() {
            check_outcome(before, *body, Value::Prim(Prim::Type), r, after)
        } else {
            let param = params@[from as int];
            exists|
                annotated: Elaborator<'core, 'text>,
                typed: Elaborator<'core, 'text>,
                inner: Elaborator<'core, 'text>,
                annotation: Option<Expr<'core>>,
                name: Option<Symbol<'core>>,
                ty: (Expr<'core>, Type<'core>),
            |
                {
                    &&& #[trigger] param_steps(annotated, typed, inner, annotation, name, ty)
                    &&& param_outcome(before, param, annotated, typed, inner, annotation, name, ty)
                    &&& exists|
                        deep: Elaborator<'core, 'text>,
                        inner_after: Elaborator<'core, 'text>,
                        back: Elaborator<'core, 'text>,
                        kept: Seq<Binding<'core>>,
                        rest: Expr<'core>,
                    |
                        {
                            &&& #[trigger] rest_steps(deep, inner_after, back, kept, rest)
                            &&& pattern_entered(
                                inner,
                                param.data.pat,
                                last_var(),
                                var_value(typed.local_env.names@.len() as usize),
                                ty.1,
                                kept,
                                deep,
                            )
                            &&& fun_type_outcome(deep, expr, from + 1, rest, inner_after)
                            &&& restored(
                                inner_after,
                                back,
                                inner.local_env.names@.len(),
                                inner.local_env.values,
                            )
                            &&& entered(after, back)
                            &&& r@ == Term::FunType {
                                plicity: param.data.plicity,
                                name: name_text(name),
                                ty: Box::new(ty.0@),
                                body: Box::new(lets_term(bindings_model(kept), rest@)),
                            }
                        }
                }
        },
        _ => true,
    }
}

/// Marks the state, the term and the type of the body that
/// [`fun_lit_outcome`] speaks of.
pub open spec fn body_steps(found: Elaborator, term: Expr, ty: Value) -> bool {
    true
}

/// Marks the states and the terms of what follows a parameter that
/// [`fun_lit_outcome`] speaks of.
pub open spec fn lit_rest_steps(
    deep: Elaborator,
    inner_after: Elaborator,
    back: Elaborator,
    kept: Seq<(Option<Symbol>, Expr, Expr)>,
    rest: (Expr, Expr),
) -> bool {
    true
}

/// Marks the state and the terms that [`synth_outcome`] speaks of for a
/// function literal.
pub open spec fn lit_steps(made: Elaborator, found: (Expr, Expr)) -> bool {
    true
}

/// Whether `after` and `r`, a term and its type as a term, are what comes
/// of elaborating the parameters from `from` on of the function literal
/// `expr`, and its body, in the state `before`. After the last parameter,
/// the type of the body is found and read back. A parameter is brought into
/// scope as [`param_outcome`] says, and the variables of its pattern as
/// [`pattern_entered`] says. What follows is elaborated in that scope, the
/// scope is left, and the term is the function from the parameter to what
/// follows under the bindings of the pattern, and its type the function type
/// from the type of the parameter to the type of what follows.
pub open spec fn fun_lit_outcome<'core, 'text>(
    before: Elaborator<'core, 'text>,
    expr: Located<surface::Expr>,
    from: nat,
    r: (Expr<'core>, Expr<'core>),
    after: Elaborator<'core, 'text>,
) -> bool
    decreases expr, 0nat, (match expr.data {
        surface::Expr::FunLit { params, .. } => params@.len() - from,
        _ => 0,
    }),
{
    match expr.data {
        surface::Expr::FunLit { params, body } => if from >= params@.len() {
            exists|found: Elaborator<'core, 'text>, term: Expr<'core>, ty: Type<'core>|
                {
                    &&& #[trigger] body_steps(found, term, ty)
                    &&& synth_outcome(before, *body, (term, ty), found)
                    &&& read_back(found, after, body.range, ty, r.1)
                    &&& r.0 == term
                }
        } else {
            let param = params@[from as int];
            exists|
                annotated: Elaborator<'core, 'text>,
                typed: Elaborator<'core, 'text>,
                inner: Elaborator<'core, 'text>,
                annotation: Option<Expr<'core>>,
                name: Option<Symbol<'core>>,
                ty: (Expr<'core>, Type<'core>),
            |
                {
                    &&& #[trigger] param_steps(annotated, typed, inner, annotation, name, ty)
                    &&& param_outcome(before, param, annotated, typed, inner, annotation, name, ty)
                    &&& exists|
                        deep: Elaborator<'core, 'text>,
                        inner_after: Elaborator<'core, 'text>,
                        back: Elaborator<'core, 'text>,
                        kept: Seq<Binding<'core>>,
                        rest: (Expr<'core>, Expr<'core>),
                    |
                        {
                            &&& #[trigger] lit_rest_steps(deep, inner_after, back, kept, rest)
                            &&& pattern_entered(
                                inner,
                                param.data.pat,
                                last_var(),
                                var_value(typed.local_env.names@.len() as usize),
                                ty.1,
                                kept,
                                deep,
                            )
                            &&& fun_lit_outcome(deep, expr, from + 1, rest, inner_after)
                            &&& restored(
                                inner_after,
                                back,
                                inner.local_env.names@.len(),
                                inner.local_env.values,
                            )
                            &&& entered(after, back)
                            &&& r.0@ == Term::FunLit {
                                plicity: param.data.plicity,
                                name: name_text(name),
                                ty: Box::new(ty.0@),
                                body: Box::new(lets_term(bindings_model(kept), rest.0@)),
                            }
                            &&& r.1@ == Term::FunType {
                                plicity: param.data.plicity,
                                name: name_text(name),
                                ty: Box::new(ty.0@),
                                body: Box::new(rest.1@),
                            }
                        }
                }
        },
        _ => true,
    }
}

/// Whether `after` and `kept` are what comes of bringing the bindings
/// `bindings` into scope in the state `before`: each is in scope as a
/// definition, with the value of its initialiser and the value of its type,
/// found where the bindings before it are in scope. Where one of those
/// evaluations needs more steps than the elaborator allows, that binding
/// and those after it are left out, which is reported about `range`; `kept`
/// are the bindings that are in scope.
pub open spec fn bindings_entered<'core>(
    before: Elaborator<'core, '_>,
    after: Elaborator<'core, '_>,
    range: TextRange,
    bindings: Seq<Binding<'core>>,
    kept: Seq<Binding<'core>>,
) -> bool {
    let count = kept.len();
    &&& count <= bindings.len()
    &&& kept == bindings.take(count as int)
    &&& after.wf()
    &&& after.bump == before.bump
    &&& after.text == before.text
    &&& after.file_id == before.file_id
    &&& after.fuel == before.fuel
    &&& after.meta_env == before.meta_env
    &&& bound_env(
        before.meta_env.values@,
        before.local_env.values,
        bindings,
        count,
        before.fuel,
    ) == Some(after.local_env.values)
    &&& after.local_env.types@ == before.local_env.types@ + bound_types(
        before.meta_env.values@,
        before.local_env.values,
        bindings,
        count,
        before.fuel,
    )
    &&& after.local_env.names@ == before.local_env.names@ + Seq::new(
        count,
        |i: int| bindings[i].0,
    )
    &&& after.local_env.infos@ == before.local_env.infos@ + Seq::new(
        count,
        |i: int| LocalInfo::Let,
    )
    &&& if count < bindings.len() {
        &&& bound_env(
            before.meta_env.values@,
            before.local_env.values,
            bindings,
            count + 1,
            before.fuel,
        ) is None
        &&& after.diagnostics@.len() == before.diagnostics@.len() + 1
        &&& after.diagnostics@.drop_last() == before.diagnostics@
        &&& is_error(after.diagnostics@.last(), before.file_id, range, limit_message())
    } else {
        after.diagnostics@ == before.diagnostics@
    }
}

/// Marks the state that [`let_typed`] speaks of.
pub open spec fn valued_step(valued: Elaborator) -> bool {
    true
}

/// Whether `after` and `r`, a term and its value, are the type of a `let`
/// binding of the name `name`: the value of its annotation, where it has
/// one, else a fresh metavariable; and the term that this value reads back
/// as.
pub open spec fn let_typed<'core, 'text>(
    before: Elaborator<'core, 'text>,
    after: Elaborator<'core, 'text>,
    range: TextRange,
    name: Option<Symbol<'core>>,
    annotation: Option<Expr<'core>>,
    r: (Expr<'core>, Type<'core>),
) -> bool {
    exists|valued: Elaborator<'core, 'text>|
        {
            &&& #[trigger] valued_step(valued)
            &&& match annotation {
                Some(ty) => evaluated(before, valued, range, ty, r.1),
                None => fresh_typed(
                    before,
                    valued,
                    range,
                    MetaSource::PatType { range, name },
                    r.1,
                ),
            }
            &&& read_back(valued, after, range, r.1, r.0)
        }
}

/// Marks the states, the terms and the values that [`let_outcome`] speaks
/// of for the binding.
pub open spec fn let_steps(
    annotated: Elaborator,
    typed: Elaborator,
    checked: Elaborator,
    valued: Elaborator,
    annotation: Option<Expr>,
    name: Option<Symbol>,
    ty: (Expr, Value),
    init: (Expr, Value),
) -> bool {
    true
}

/// Marks the states, the bindings and the term and type of the body that
/// [`let_outcome`] speaks of.
pub open spec fn let_body_steps(
    patterned: Elaborator,
    deep: Elaborator,
    deep_after: Elaborator,
    core_pat: crate::syntax::Pat,
    found: Seq<(Option<Symbol>, Expr, Expr)>,
    kept: Seq<(Option<Symbol>, Expr, Expr)>,
    body: (Expr, Value),
) -> bool {
    true
}

/// Whether `after` and `r`, a term and its type, are what comes of
/// elaborating the `let` expression `expr`, which is no `let rec`, in the
/// state `before`. The annotation, where there is one, is held to the type
/// of types; the type of the binding is as [`let_typed`] says; the
/// initialiser is held to it and evaluated. A name binds the initialiser, a
/// wildcard nothing, and a pattern that takes the value apart what
/// [`pat_outcome`] says; the bindings are brought into scope as
/// [`bindings_entered`] says. In that scope the body is held to the type
/// `expected`, or its type is found where there is none. Then the scope is as
/// before the bindings, and the term is the body under the bindings that were
/// brought in.
pub open spec fn let_outcome<'core, 'text>(
    before: Elaborator<'core, 'text>,
    expr: Located<surface::Expr>,
    expected: Option<Type<'core>>,
    r: (Expr<'core>, Type<'core>),
    after: Elaborator<'core, 'text>,
) -> bool
    decreases expr, 0nat, 0nat,
{
    match expr.data {
        surface::Expr::Let { pat, ty, init, body, .. } => exists|
            annotated: Elaborator<'core, 'text>,
            typed: Elaborator<'core, 'text>,
            checked: Elaborator<'core, 'text>,
            valued: Elaborator<'core, 'text>,
            annotation: Option<Expr<'core>>,
            name: Option<Symbol<'core>>,
            ty_found: (Expr<'core>, Type<'core>),
            init_found: (Expr<'core>, Value<'core>),
        |
            {
                &&& #[trigger] let_steps(
                    annotated,
                    typed,
                    checked,
                    valued,
                    annotation,
                    name,
                    ty_found,
                    init_found,
                )
                &&& match ty {
                    Some(written) => annotation is Some && check_outcome(
                        before,
                        *written,
                        Value::Prim(Prim::Type),
                        annotation->0,
                        annotated,
                    ),
                    None => annotation is None && annotated == before,
                }
                &&& name_text(name) == name_text(binder_of(*pat))
                &&& let_typed(annotated, typed, pat.range, name, annotation, ty_found)
                &&& check_outcome(typed, *init, ty_found.1, init_found.0, checked)
                &&& evaluated(checked, valued, init.range, init_found.0, init_found.1)
                &&& exists|
                    patterned: Elaborator<'core, 'text>,
                    deep: Elaborator<'core, 'text>,
                    deep_after: Elaborator<'core, 'text>,
                    core_pat: crate::syntax::Pat<'core>,
                    found: Seq<Binding<'core>>,
                    kept: Seq<Binding<'core>>,
                    body_found: (Expr<'core>, Type<'core>),
                |
                    {
                        &&& #[trigger] let_body_steps(
                            patterned,
                            deep,
                            deep_after,
                            core_pat,
                            found,
                            kept,
                            body_found,
                        )
                        &&& if destructures(*pat) {
                            pat_outcome(
                                valued,
                                *pat,
                                init_found.0,
                                init_found.1,
                                ty_found.1,
                                valued.local_env.names@.len() as usize,
                                Seq::empty(),
                                false,
                                core_pat,
                                found,
                                patterned,
                            )
                        } else {
                            patterned == valued && found == if name is Some {
                                seq![(name, ty_found.0, init_found.0)]
                            } else {
                                Seq::empty()
                            }
                        }
                        &&& bindings_entered(patterned, deep, pat.range, found, kept)
                        &&& match expected {
                            Some(held) => check_outcome(
                                deep,
                                *body,
                                held,
                                body_found.0,
                                deep_after,
                            ) && body_found.1 == held,
                            None => synth_outcome(deep, *body, body_found, deep_after),
                        }
                        &&& restored(
                            deep_after,
                            after,
                            valued.local_env.names@.len(),
                            valued.local_env.values,
                        )
                        &&& r.0@ == lets_term(bindings_model(kept), body_found.0@)
                        &&& r.1 == body_found.1
                    }
            },
        _ => true,
    }
}

/// Marks the state, the term and the type of an item that
/// [`items_outcome`] speaks of.
pub open spec fn item_steps(found: Elaborator, item: Expr, ty: Value) -> bool {
    true
}

/// Whether `after`, `items` and `last_ty` are what comes of elaborating the
/// items from `from` on of the list literal `expr` in the state `before`,
/// where `item_ty` is the type that the items are held to, if it is known
/// yet, and `done` are the items before `from`. An item is held to the type
/// where it is known; else its type is found, and is the type that the items
/// after it are held to. `items` are all the items, and `last_ty` is the
/// type that an item after the last would be held to.
pub open spec fn items_outcome<'core, 'text>(
    before: Elaborator<'core, 'text>,
    expr: Located<surface::Expr>,
    from: nat,
    item_ty: Option<Type<'core>>,
    done: Seq<Expr<'core>>,
    items: Seq<Expr<'core>>,
    last_ty: Option<Type<'core>>,
    after: Elaborator<'core, 'text>,
) -> bool
    decreases expr, 0nat, (match expr.data {
        surface::Expr::ListLit(elems) => elems@.len() - from,
        _ => 0,
    }),
{
    match expr.data {
        surface::Expr::ListLit(elems) => if from >= elems@.len() {
            after == before && items == done && last_ty == item_ty
        } else {
            exists|found: Elaborator<'core, 'text>, item: Expr<'core>, ty: Type<'core>|
                {
                    &&& #[trigger] item_steps(found, item, ty)
                    &&& match item_ty {
                        Some(held) => check_outcome(before, elems@[from as int], held, item, found)
                            && ty == held,
                        None => synth_outcome(before, elems@[from as int], (item, ty), found),
                    }
                    &&& items_outcome(
                        found,
                        expr,
                        from + 1,
                        Some(ty),
                        done.push(item),
                        items,
                        last_ty,
                        after,
                    )
                }
        },
        _ => true,
    }
}

/// The type of the items of the lists of type `ty`, where `ty` is the type
/// of the lists of some type.
pub open spec fn item_type_of<'core>(ty: Type<'core>) -> Option<Type<'core>> {
    match ty {
        Value::Neutral(Head::Prim(Prim::List), spine) => if spine@.len() == 1
            && spine@[0] is FunApp {
            Some(*spine@[0]->FunApp_0.expr)
        } else {
            None
        },
        _ => None,
    }
}

/// Marks the states, the types and the terms that [`list_outcome`] speaks
/// of.
pub open spec fn list_steps(
    first: Elaborator,
    walked: Elaborator,
    quoted: Elaborator,
    first_ty: Option<Value>,
    last_ty: Option<Value>,
    items: Seq<Expr>,
    ty_term: Expr,
    list_ty: Expr,
) -> bool {
    true
}

/// Whether `after` and `r`, a term and its type, are what comes of
/// elaborating the list literal `expr` in the state `before`, where
/// `item_ty` is the type that its items are held to, if one is known. Where
/// none is known and the list is empty, the type of the items is a fresh
/// metavariable. The items are elaborated as [`items_outcome`] says. The
/// type of the items is read back; the term is the list literal of the
/// items with that type, and its type the value of the type of the lists of
/// that type.
pub open spec fn list_outcome<'core, 'text>(
    before: Elaborator<'core, 'text>,
    expr: Located<surface::Expr>,
    item_ty: Option<Type<'core>>,
    r: (Expr<'core>, Type<'core>),
    after: Elaborator<'core, 'text>,
) -> bool
    decreases expr, 0nat, (match expr.data {
        surface::Expr::ListLit(elems) => elems@.len() + 1,
        _ => 0,
    }),
{
    match expr.data {
        surface::Expr::ListLit(elems) => exists|
            first: Elaborator<'core, 'text>,
            walked: Elaborator<'core, 'text>,
            quoted: Elaborator<'core, 'text>,
            first_ty: Option<Type<'core>>,
            last_ty: Option<Type<'core>>,
            items: Seq<Expr<'core>>,
            ty_term: Expr<'core>,
            list_ty: Expr<'core>,
        |
            {
                &&& #[trigger] list_steps(
                    first,
                    walked,
                    quoted,
                    first_ty,
                    last_ty,
                    items,
                    ty_term,
                    list_ty,
                )
                &&& if elems@.len() == 0 && item_ty is None {
                    first_ty is Some && fresh_typed(
                        before,
                        first,
                        expr.range,
                        MetaSource::ListElemType { range: expr.range },
                        first_ty->0,
                    )
                } else {
                    first == before && first_ty == item_ty
                }
                &&& items_outcome(first, expr, 0, first_ty, Seq::empty(), items, last_ty, walked)
                &&& read_back(
                    walked,
                    quoted,
                    expr.range,
                    match last_ty {
                        Some(ty) => ty,
                        None => error_value::<'core>(),
                    },
                    ty_term,
                )
                &&& list_ty@ == t_list(ty_term@)
                &&& evaluated(quoted, after, expr.range, list_ty, r.1)
                &&& r.0@ == list_term(ty_term@, Seq::new(items.len(), |i: int| items[i]@))
            },
        _ => true,
    }
}

/// Marks the state and the type that [`check_outcome`] speaks of for a
/// list literal.
pub open spec fn forced_steps(forced: Elaborator, ty: Value) -> bool {
    true
}

/// Marks the type of the list that [`check_outcome`] speaks of.
pub open spec fn list_typed(list_ty: Value) -> bool {
    true
}

/// Marks the state and the term and type that [`check_outcome`] speaks of
/// for a list literal that is held to what is no type of lists.
pub open spec fn listed_steps(found: Elaborator, list: (Expr, Value)) -> bool {
    true
}

/// The text of the label of the component or field `index` of a tuple or
/// a record literal.
pub open spec fn field_text(expr: Located<surface::Expr>, index: nat) -> Seq<char> {
    match expr.data {
        surface::Expr::RecordLit(fields) => fields@[index as int].name.data@,
        _ => crate::symbol::tuple_label(index),
    }
}

/// Whether `after` and `r` are what comes of reading the value `value`
/// back in the state `before`, where `len` variables are in scope.
pub open spec fn read_back_at<'core>(
    before: Elaborator<'core, '_>,
    after: Elaborator<'core, '_>,
    range: TextRange,
    len: usize,
    value: Value<'core>,
    r: Expr<'core>,
) -> bool {
    term_or_reported(
        before,
        after,
        range,
        quote_spec(elab_opts(), before.meta_env.values@, len, value, before.fuel as nat),
        r,
    )
}

/// Marks the states, the label, the term and the types of a field that
/// [`fields_outcome`] speaks of.
pub open spec fn field_found(
    found: Elaborator,
    quoted: Elaborator,
    label: Symbol,
    field: (Expr, Value),
    ty_term: Expr,
) -> bool {
    true
}

/// Whether `after`, `terms` and `types` are what comes of elaborating the
/// components or fields from `from` on of the tuple or record literal
/// `expr` in the state `before`, where `done_terms` and `done_types` are the
/// terms and the types of those before `from`, and `depth` is the number of
/// variables in scope. The type of each is found and read back in the scope
/// of the fields before it. `terms` and `types` are the terms and the types
/// of all the fields, each with its label.
pub open spec fn fields_outcome<'core, 'text>(
    before: Elaborator<'core, 'text>,
    expr: Located<surface::Expr>,
    from: nat,
    depth: usize,
    done_terms: Seq<(Symbol<'core>, Expr<'core>)>,
    done_types: Seq<(Symbol<'core>, Expr<'core>)>,
    terms: Seq<(Symbol<'core>, Expr<'core>)>,
    types: Seq<(Symbol<'core>, Expr<'core>)>,
    after: Elaborator<'core, 'text>,
) -> bool
    decreases expr, 0nat, field_count_spec(expr) - from,
{
    if from >= field_count_spec(expr) {
        after == before && terms == done_terms && types == done_types
    } else {
        let part = match expr.data {
            surface::Expr::TupleLit(elems) => elems@[from as int],
            surface::Expr::RecordLit(fields) => fields@[from as int].expr,
            _ => expr,
        };
        exists|
            found: Elaborator<'core, 'text>,
            quoted: Elaborator<'core, 'text>,
            label: Symbol<'core>,
            field: (Expr<'core>, Type<'core>),
            ty_term: Expr<'core>,
        |
            {
                &&& #[trigger] field_found(found, quoted, label, field, ty_term)
                &&& label@ == field_text(expr, from)
                &&& synth_outcome(before, part, field, found)
                &&& if depth + from <= usize::MAX {
                    read_back_at(
                        found,
                        quoted,
                        expr.range,
                        (depth + from) as usize,
                        field.1,
                        ty_term,
                    )
                } else {
                    quoted == found && ty_term == Expr::Error
                }
                &&& fields_outcome(
                    quoted,
                    expr,
                    from + 1,
                    depth,
                    done_terms.push((label, field.0)),
                    done_types.push((label, ty_term)),
                    terms,
                    types,
                    after,
                )
            }
    }
}

/// Marks the state, the fields and the type that [`record_lit_outcome`]
/// speaks of.
pub open spec fn record_steps(
    walked: Elaborator,
    terms: Seq<(Symbol, Expr)>,
    types: Seq<(Symbol, Expr)>,
    ty: Expr,
) -> bool {
    true
}

/// Whether `after` and `r`, a term and its type, are what comes of finding
/// the type of the tuple or record literal `expr` in the state `before`:
/// the fields are elaborated as [`fields_outcome`] says; the term is the
/// record of their terms, and its type the value of the record type of
/// their types.
pub open spec fn record_lit_outcome<'core, 'text>(
    before: Elaborator<'core, 'text>,
    expr: Located<surface::Expr>,
    r: (Expr<'core>, Type<'core>),
    after: Elaborator<'core, 'text>,
) -> bool
    decreases expr, 0nat, field_count_spec(expr) + 1,
{
    exists|
        walked: Elaborator<'core, 'text>,
        terms: Seq<(Symbol<'core>, Expr<'core>)>,
        types: Seq<(Symbol<'core>, Expr<'core>)>,
        ty: Expr<'core>,
    |
        {
            &&& #[trigger] record_steps(walked, terms, types, ty)
            &&& fields_outcome(
                before,
                expr,
                0,
                before.local_env.names@.len() as usize,
                Seq::empty(),
                Seq::empty(),
                terms,
                types,
                walked,
            )
            &&& ty matches Expr::RecordType(fields) && fields@ == types
            &&& evaluated(walked, after, expr.range, ty, r.1)
            &&& r.0 matches Expr::RecordLit(fields) && fields@ == terms
        }
}

/// What is reported of a label that stands twice in a record type.
pub open spec fn duplicate_message(label: Seq<char>) -> Seq<char> {
    "Duplicate field `"@ + label + "`"@
}

/// Whether a field of the label `label` is among `fields`.
pub open spec fn has_label(fields: Seq<(Symbol, Expr)>, label: Seq<char>) -> bool {
    exists|k: int| 0 <= k < fields.len() && (#[trigger] fields[k]).0@ == label
}

/// Marks the states, the label and the type of a field that
/// [`type_fields_outcome`] speaks of.
pub open spec fn type_field_steps(
    told: Elaborator,
    checked: Elaborator,
    valued: Elaborator,
    inner: Elaborator,
    label: Symbol,
    ty: (Expr, Value),
) -> bool {
    true
}

/// Whether `after` and `types` are what comes of elaborating the fields
/// from `from` on of the record type `expr` in the state `before`, where
/// `done` are the fields before `from`. A label that stands among the fields
/// before is reported. The type of the field is held to the type of types
/// and evaluated, and the field is brought into scope as a parameter of
/// that type, for the fields after it. `types` are the types of the fields,
/// each with its label, without those of a label that stood before.
pub open spec fn type_fields_outcome<'core, 'text>(
    before: Elaborator<'core, 'text>,
    expr: Located<surface::Expr>,
    from: nat,
    done: Seq<(Symbol<'core>, Expr<'core>)>,
    types: Seq<(Symbol<'core>, Expr<'core>)>,
    after: Elaborator<'core, 'text>,
) -> bool
    decreases expr, 0nat, (match expr.data {
        surface::Expr::RecordType(fields) => fields@.len() - from,
        _ => 0,
    }),
{
    match expr.data {
        surface::Expr::RecordType(fields) => if from >= fields@.len() {
            after == before && types == done
        } else {
            let field = fields@[from as int];
            exists|
                told: Elaborator<'core, 'text>,
                checked: Elaborator<'core, 'text>,
                valued: Elaborator<'core, 'text>,
                inner: Elaborator<'core, 'text>,
                label: Symbol<'core>,
                ty: (Expr<'core>, Type<'core>),
            |
                {
                    &&& #[trigger] type_field_steps(told, checked, valued, inner, label, ty)
                    &&& label@ == field.name.data@
                    &&& if has_label(done, label@) {
                        reported(before, told, field.name.range, duplicate_message(label@))
                    } else {
                        told == before
                    }
                    &&& check_outcome(told, field.ty, Value::Prim(Prim::Type), ty.0, checked)
                    &&& evaluated(checked, valued, field.ty.range, ty.0, ty.1)
                    &&& param_entered(valued, inner, Some(label), ty.1)
                    &&& type_fields_outcome(
                        inner,
                        expr,
                        from + 1,
                        if has_label(done, label@) {
                            done
                        } else {
                            done.push((label, ty.0))
                        },
                        types,
                        after,
                    )
                }
        },
        _ => true,
    }
}

/// Marks the state and the fields that [`record_type_outcome`] speaks of.
pub open spec fn record_type_steps(deep: Elaborator, types: Seq<(Symbol, Expr)>) -> bool {
    true
}

/// Whether `after` and `r` are what comes of elaborating the record type
/// `expr` in the state `before`: the fields are elaborated as
/// [`type_fields_outcome`] says, the scope is as before them, and the term
/// is the record type of their types.
pub open spec fn record_type_outcome<'core, 'text>(
    before: Elaborator<'core, 'text>,
    expr: Located<surface::Expr>,
    r: Expr<'core>,
    after: Elaborator<'core, 'text>,
) -> bool
    decreases expr, 0nat, (match expr.data {
        surface::Expr::RecordType(fields) => fields@.len() + 1,
        _ => 0,
    }),
{
    match expr.data {
        surface::Expr::RecordType(_) => exists|
            deep: Elaborator<'core, 'text>,
            types: Seq<(Symbol<'core>, Expr<'core>)>,
        |
            {
                &&& #[trigger] record_type_steps(deep, types)
                &&& type_fields_outcome(before, expr, 0, Seq::empty(), types, deep)
                &&& restored(deep, after, before.local_env.names@.len(), before.local_env.values)
                &&& r matches Expr::RecordType(fields) && fields@ == types
            },
        _ => true,
    }
}

/// Whether `after` and `r` are what comes of applying the closure
/// `closure` to the value `arg` in the state `before`: `r` is the value of
/// its body for that argument.
pub open spec fn closure_applied<'core>(
    before: Elaborator<'core, '_>,
    after: Elaborator<'core, '_>,
    range: TextRange,
    closure: Closure<'core>,
    arg: Value<'core>,
    r: Value<'core>,
) -> bool {
    value_or_reported(
        before,
        after,
        range,
        eval_spec(
            elab_opts(),
            before.meta_env.values@,
            closure.env.pushed(arg),
            *closure.body,
            before.fuel as nat,
        ),
        r,
    )
}

/// Whether `diagnostic` reports that the parameter at `param_range` of the
/// function literal at `fun_range` is implicit where the type that the
/// literal is held to takes an explicit one: an error with a remark on the
/// parameter and, at the literal, the type `ty` as it is shown in the state
/// `state`.
pub open spec fn is_implicit_param_error<'core>(
    diagnostic: Diagnostic,
    state: Elaborator<'core, '_>,
    ty: Type<'core>,
    fun_range: TextRange,
    param_range: TextRange,
) -> bool {
    let file_id = state.file_id;
    &&& diagnostic.severity == Severity::Error
    &&& diagnostic.message@ == "Implicit parameter when explicit parameter was expected"@
    &&& diagnostic.primary_label.file_id == file_id
    &&& diagnostic.primary_label.range == param_range
    &&& diagnostic.primary_label.message is Some
    &&& diagnostic.primary_label.message->0@ == "implicit parameter"@
    &&& diagnostic.secondary_labels@.len() == 1
    &&& diagnostic.secondary_labels@[0].file_id == file_id
    &&& diagnostic.secondary_labels@[0].range == fun_range
    &&& diagnostic.secondary_labels@[0].message is Some
    &&& exists|shown: Seq<char>|
        {
            &&& #[trigger] expected_type_remark(shown)
                == diagnostic.secondary_labels@[0].message->0@
            &&& value_shown(state, ty, shown)
        }
}

/// The remark that tells the type that was expected.
pub open spec fn expected_type_remark(shown: Seq<char>) -> Seq<char> {
    "expected type "@ + shown
}

/// Marks the state and the type that [`check_lit_outcome`] speaks of.
pub open spec fn lit_forced(forced: Elaborator, ty: Value) -> bool {
    true
}

/// Marks the states, the terms and the type that [`check_lit_outcome`]
/// speaks of where the type is no function type.
pub open spec fn lit_found(made: Elaborator, valued: Elaborator, found: (Expr, Expr), ty: Value) -> bool {
    true
}

/// Marks the states, the terms and the type that [`check_lit_outcome`]
/// speaks of where it brings a parameter into scope.
pub open spec fn lit_param(
    quoted: Elaborator,
    inner: Elaborator,
    applied: Elaborator,
    inner_after: Elaborator,
    back: Elaborator,
    ty_term: Expr,
    body_ty: Value,
    rest: Expr,
) -> bool {
    true
}

/// Marks the state and the bindings of the pattern of a parameter that
/// [`check_lit_outcome`] speaks of.
pub open spec fn lit_pattern(deep: Elaborator, kept: Seq<(Option<Symbol>, Expr, Expr)>) -> bool {
    true
}

/// Marks the states, the term and the value of the annotation, and the name
/// that [`check_lit_outcome`] speaks of.
pub open spec fn lit_annotated(
    checked: Elaborator,
    valued: Elaborator,
    unified: Elaborator,
    annotation: (Expr, Value),
    held: Expr,
    name: Option<Symbol>,
) -> bool {
    true
}

/// Whether `after` and `r` are what comes of holding the function literal
/// `expr`, from its parameter `from` on, to the type `expected` in the state
/// `before`. After the last parameter, the body is held to `expected`.
/// Before a parameter, `expected` is forced.
///
/// - Where it is no function type, the type of the literal is found as
///   [`fun_lit_outcome`] says, evaluated, and the literal is converted to
///   `expected`.
/// - Where it takes an implicit parameter and the parameter of the literal
///   is explicit, the literal is held to the body of `expected` in the scope
///   of an implicit parameter, of the name and the type that `expected` has
///   for it; the term is the function from that parameter. There are at most
///   `budget` such parameters: one more is reported.
/// - Where it takes an explicit parameter and that of the literal is
///   implicit, that is reported as [`is_implicit_param_error`] says, and the
///   term is the error term.
/// - Else the annotation of the parameter, where it has one, is held to the
///   type of types, evaluated and unified with the type that `expected` has
///   for the parameter, as [`held_to`] says. The parameter is brought into
///   scope under the name that its pattern binds, with the type that
///   `expected` has for it, and the variables of its pattern as
///   [`pattern_entered`] says. What follows is held to the body of
///   `expected`, and the term is the function from the parameter to what
///   follows under the bindings of the pattern.
pub open spec fn check_lit_outcome<'core, 'text>(
    before: Elaborator<'core, 'text>,
    expr: Located<surface::Expr>,
    from: nat,
    expected: Type<'core>,
    budget: nat,
    r: Expr<'core>,
    after: Elaborator<'core, 'text>,
) -> bool
    decreases expr, 1nat, (match expr.data {
        surface::Expr::FunLit { params, .. } => params@.len() - from,
        _ => 0,
    }), budget,
{
    match expr.data {
        surface::Expr::FunLit { params, body } => if from >= params@.len() {
            check_outcome(before, *body, expected, r, after)
        } else {
            let param = params@[from as int];
            exists|forced: Elaborator<'core, 'text>, ty: Type<'core>|
                {
                    &&& #[trigger] lit_forced(forced, ty)
                    &&& value_or_reported(
                        before,
                        forced,
                        param.range,
                        force_spec(
                            elab_opts(),
                            before.meta_env.values@,
                            expected,
                            before.fuel as nat,
                        ),
                        ty,
                    )
                    &&& match ty {
                        Value::FunType { param: wanted, body: wanted_body } => {
                            if param.data.plicity == Plicity::Explicit && wanted.plicity
                                == Plicity::Implicit {
                                if budget == 0 {
                                    r == Expr::Error && reported(
                                        forced,
                                        after,
                                        param.range,
                                        limit_message(),
                                    )
                                } else {
                                    exists|
                                        quoted: Elaborator<'core, 'text>,
                                        inner: Elaborator<'core, 'text>,
                                        applied: Elaborator<'core, 'text>,
                                        inner_after: Elaborator<'core, 'text>,
                                        back: Elaborator<'core, 'text>,
                                        ty_term: Expr<'core>,
                                        body_ty: Type<'core>,
                                        rest: Expr<'core>,
                                    |
                                        {
                                            &&& #[trigger] lit_param(
                                                quoted,
                                                inner,
                                                applied,
                                                inner_after,
                                                back,
                                                ty_term,
                                                body_ty,
                                                rest,
                                            )
                                            &&& read_back(
                                                forced,
                                                quoted,
                                                param.range,
                                                *wanted.ty,
                                                ty_term,
                                            )
                                            &&& param_entered(quoted, inner, wanted.name, *wanted.ty)
                                            &&& closure_applied(
                                                inner,
                                                applied,
                                                param.range,
                                                wanted_body,
                                                var_value(quoted.local_env.names@.len() as usize),
                                                body_ty,
                                            )
                                            &&& check_lit_outcome(
                                                applied,
                                                expr,
                                                from,
                                                body_ty,
                                                (budget - 1) as nat,
                                                rest,
                                                inner_after,
                                            )
                                            &&& back == inner_after
                                            &&& entered(after, inner_after)
                                            &&& r@ == Term::FunLit {
                                                plicity: Plicity::Implicit,
                                                name: name_text(wanted.name),
                                                ty: Box::new(ty_term@),
                                                body: Box::new(rest@),
                                            }
                                        }
                                }
                            } else if param.data.plicity != wanted.plicity {
                                &&& r == Expr::Error
                                &&& after.meta_env == forced.meta_env
                                &&& after.diagnostics@.len() == forced.diagnostics@.len() + 1
                                &&& is_implicit_param_error(
                                    after.diagnostics@.last(),
                                    forced,
                                    ty,
                                    expr.range,
                                    param.range,
                                )
                            } else {
                                exists|
                                    checked: Elaborator<'core, 'text>,
                                    valued: Elaborator<'core, 'text>,
                                    unified: Elaborator<'core, 'text>,
                                    annotation: (Expr<'core>, Value<'core>),
                                    held: Expr<'core>,
                                    name: Option<Symbol<'core>>,
                                |
                                    {
                                        &&& #[trigger] lit_annotated(
                                            checked,
                                            valued,
                                            unified,
                                            annotation,
                                            held,
                                            name,
                                        )
                                        &&& match param.data.ty {
                                            Some(written) => {
                                                &&& check_outcome(
                                                    forced,
                                                    written,
                                                    Value::Prim(Prim::Type),
                                                    annotation.0,
                                                    checked,
                                                )
                                                &&& evaluated(
                                                    checked,
                                                    valued,
                                                    written.range,
                                                    annotation.0,
                                                    annotation.1,
                                                )
                                                &&& held_to(
                                                    valued,
                                                    unified,
                                                    written.range,
                                                    annotation.0,
                                                    annotation.1,
                                                    *wanted.ty,
                                                    held,
                                                )
                                            },
                                            None => unified == forced,
                                        }
                                        &&& name_text(name) == name_text(binder_of(param.data.pat))
                                        &&& exists|
                                            quoted: Elaborator<'core, 'text>,
                                            inner: Elaborator<'core, 'text>,
                                            applied: Elaborator<'core, 'text>,
                                            inner_after: Elaborator<'core, 'text>,
                                            back: Elaborator<'core, 'text>,
                                            ty_term: Expr<'core>,
                                            body_ty: Type<'core>,
                                            rest: Expr<'core>,
                                        |
                                            {
                                                &&& #[trigger] lit_param(
                                                    quoted,
                                                    inner,
                                                    applied,
                                                    inner_after,
                                                    back,
                                                    ty_term,
                                                    body_ty,
                                                    rest,
                                                )
                                                &&& read_back(
                                                    unified,
                                                    quoted,
                                                    param.range,
                                                    *wanted.ty,
                                                    ty_term,
                                                )
                                                &&& param_entered(quoted, inner, name, *wanted.ty)
                                                &&& closure_applied(
                                                    inner,
                                                    applied,
                                                    param.range,
                                                    wanted_body,
                                                    var_value(
                                                        quoted.local_env.names@.len() as usize,
                                                    ),
                                                    body_ty,
                                                )
                                                &&& exists|
                                                    deep: Elaborator<'core, 'text>,
                                                    kept: Seq<Binding<'core>>,
                                                |
                                                    {
                                                        &&& #[trigger] lit_pattern(deep, kept)
                                                        &&& pattern_entered(
                                                            applied,
                                                            param.data.pat,
                                                            last_var(),
                                                            var_value(
                                                                quoted.local_env.names@.len() as usize,
                                                            ),
                                                            *wanted.ty,
                                                            kept,
                                                            deep,
                                                        )
                                                        &&& check_lit_outcome(
                                                            deep,
                                                            expr,
                                                            from + 1,
                                                            body_ty,
                                                            budget,
                                                            rest,
                                                            inner_after,
                                                        )
                                                        &&& restored(
                                                            inner_after,
                                                            back,
                                                            applied.local_env.names@.len(),
                                                            applied.local_env.values,
                                                        )
                                                        &&& entered(after, back)
                                                        &&& r@ == Term::FunLit {
                                                            plicity: param.data.plicity,
                                                            name: name_text(name),
                                                            ty: Box::new(ty_term@),
                                                            body: Box::new(
                                                                lets_term(
                                                                    bindings_model(kept),
                                                                    rest@,
                                                                ),
                                                            ),
                                                        }
                                                    }
                                            }
                                    }
                            }
                        },
                        _ => exists|
                            made: Elaborator<'core, 'text>,
                            valued: Elaborator<'core, 'text>,
                            found: (Expr<'core>, Expr<'core>),
                            found_ty: Type<'core>,
                        |
                            {
                                &&& #[trigger] lit_found(made, valued, found, found_ty)
                                &&& fun_lit_outcome(forced, expr, from, found, made)
                                &&& evaluated(made, valued, expr.range, found.1, found_ty)
                                &&& converted(
                                    valued,
                                    after,
                                    expr.range,
                                    found.0,
                                    found_ty,
                                    expected,
                                    r,
                                )
                            },
                    }
                }
        },
        _ => true,
    }
}

/// Whether `inner` is `outer` with one definition more in scope, of the
/// name `name`, the type `ty` and the value `value`.
pub open spec fn let_entered<'core>(
    outer: Elaborator<'core, '_>,
    inner: Elaborator<'core, '_>,
    name: Option<Symbol<'core>>,
    ty: Type<'core>,
    value: Value<'core>,
) -> bool {
    &&& entered(outer, inner)
    &&& inner.local_env.infos@.last() == LocalInfo::Let
    &&& inner.local_env.names@.last() == name
    &&& inner.local_env.types@.last() == ty
    &&& inner.local_env.values == outer.local_env.values.pushed(value)
}

/// What is reported of a `let rec` whose binding is no function literal.
pub open spec fn rec_binding_message() -> Seq<char> {
    "The binding of a `let rec` must be a function literal"@
}

/// What is reported of a `let rec` whose type is no function type.
pub open spec fn rec_type_message(shown: Seq<char>) -> Seq<char> {
    "Expected the type of a function for `let rec`, found `"@ + shown + "`"@
}

/// Marks the states that [`rec_init_outcome`] speaks of.
pub open spec fn rec_init_steps(inner: Elaborator, inner_after: Elaborator) -> bool {
    true
}

/// Whether `after` and `r` are what comes of elaborating the binding `init`
/// of a `let rec` of the name `name` and the type `ty` in the state
/// `before`: a function literal is held to the type in the scope of a
/// parameter of that name and type, which stands for the function itself;
/// anything else is reported, and is the error term.
pub open spec fn rec_init_outcome<'core, 'text>(
    before: Elaborator<'core, 'text>,
    init: Located<surface::Expr>,
    name: Option<Symbol<'core>>,
    ty: Type<'core>,
    r: Expr<'core>,
    after: Elaborator<'core, 'text>,
) -> bool
    decreases init, 3nat, 0nat,
{
    if init.data is FunLit {
        exists|inner: Elaborator<'core, 'text>, inner_after: Elaborator<'core, 'text>|
            {
                &&& #[trigger] rec_init_steps(inner, inner_after)
                &&& param_entered(before, inner, name, ty)
                &&& check_outcome(inner, init, ty, r, inner_after)
                &&& entered(after, inner_after)
            }
    } else {
        r == Expr::Error && reported(before, after, init.range, rec_binding_message())
    }
}

/// The fixed point of the function from a variable of the name `name` and
/// the type `ty` to `init`: `fix @param @result (fun (name : ty) => init)`.
pub open spec fn fix_term(param: Term, result: Term, name: Option<Seq<char>>, ty: Term, init: Term) -> Term {
    t_app(
        t_app(
            t_app(Term::Prim(Prim::Fix), Plicity::Implicit, param),
            Plicity::Implicit,
            result,
        ),
        Plicity::Explicit,
        Term::FunLit {
            plicity: Plicity::Explicit,
            name,
            ty: Box::new(ty),
            body: Box::new(init),
        },
    )
}

/// Marks the state and the type that [`fixed`] speaks of.
pub open spec fn fix_forced(forced: Elaborator, ty: Value) -> bool {
    true
}

/// Marks the states, the terms and the value that [`fixed`] speaks of.
pub open spec fn fix_steps(
    quoted: Elaborator,
    applied: Elaborator,
    param_ty: Expr,
    result: Value,
    result_ty: Expr,
) -> bool {
    true
}

/// Whether `after` and `r` are the fixed point that a `let rec` binds, in
/// the state `before`: the type `ty` of the binding is forced. Where it is a
/// function type and the binding is a function literal, the type of its
/// parameter and the type of its result, for the parameter itself, are read
/// back, and `r` is the fixed point as [`fix_term`] says. Where the binding
/// is a function literal and the type is neither a function type nor the
/// error value, that is reported. In every other case `r` is the error
/// term.
pub open spec fn fixed<'core, 'text>(
    before: Elaborator<'core, 'text>,
    after: Elaborator<'core, 'text>,
    range: TextRange,
    is_fun_lit: bool,
    name: Option<Symbol<'core>>,
    ty: (Expr<'core>, Type<'core>),
    init: Expr<'core>,
    r: Expr<'core>,
) -> bool {
    exists|forced: Elaborator<'core, 'text>, forced_ty: Type<'core>|
        {
            &&& #[trigger] fix_forced(forced, forced_ty)
            &&& value_or_reported(
                before,
                forced,
                range,
                force_spec(elab_opts(), before.meta_env.values@, ty.1, before.fuel as nat),
                forced_ty,
            )
            &&& match forced_ty {
                Value::FunType { param, body } => if is_fun_lit {
                    exists|
                        quoted: Elaborator<'core, 'text>,
                        applied: Elaborator<'core, 'text>,
                        param_ty: Expr<'core>,
                        result: Value<'core>,
                        result_ty: Expr<'core>,
                    |
                        {
                            &&& #[trigger] fix_steps(quoted, applied, param_ty, result, result_ty)
                            &&& read_back(forced, quoted, range, *param.ty, param_ty)
                            &&& closure_applied(
                                quoted,
                                applied,
                                range,
                                body,
                                var_value(quoted.local_env.names@.len() as usize),
                                result,
                            )
                            &&& read_back(applied, after, range, result, result_ty)
                            &&& r@ == fix_term(
                                param_ty@,
                                result_ty@,
                                name_text(name),
                                ty.0@,
                                init@,
                            )
                        }
                } else {
                    r == Expr::Error && after == forced
                },
                Value::Neutral(Head::Error, _) => r == Expr::Error && after == forced,
                _ => {
                    &&& r == Expr::Error
                    &&& if is_fun_lit {
                        &&& after.meta_env == forced.meta_env
                        &&& after.diagnostics@.len() == forced.diagnostics@.len() + 1
                        &&& exists|shown: Seq<char>|
                            {
                                &&& is_error(
                                    after.diagnostics@.last(),
                                    before.file_id,
                                    range,
                                    #[trigger] rec_type_message(shown),
                                )
                                &&& value_shown(forced, forced_ty, shown)
                            }
                    } else {
                        after == forced
                    }
                },
            }
        }
}

/// Marks the states, the terms and the values that [`let_rec_outcome`]
/// speaks of.
pub open spec fn let_rec_steps(
    annotated: Elaborator,
    typed: Elaborator,
    checked: Elaborator,
    fixed: Elaborator,
    valued: Elaborator,
    annotation: Option<Expr>,
    name: Option<Symbol>,
    ty: (Expr, Value),
) -> bool {
    true
}

/// Marks the states, the terms and the values of the binding and the body
/// that [`let_rec_outcome`] speaks of.
pub open spec fn let_rec_body(
    inner: Elaborator,
    inner_after: Elaborator,
    init: Expr,
    fix: (Expr, Value),
    body: (Expr, Value),
) -> bool {
    true
}

/// Whether `after` and `r`, a term and its type, are what comes of
/// elaborating the `let rec` expression `expr` in the state `before`. The
/// annotation, where there is one, is held to the type of types; the type of
/// the binding is as [`let_typed`] says; the binding is elaborated as
/// [`rec_init_outcome`] says, and made a fixed point as [`fixed`] says, which
/// is evaluated. In the scope of the definition of the name, with that
/// value, the body is held to the type `expected`, or its type is found
/// where there is none. The term is the body under the definition.
pub open spec fn let_rec_outcome<'core, 'text>(
    before: Elaborator<'core, 'text>,
    expr: Located<surface::Expr>,
    expected: Option<Type<'core>>,
    r: (Expr<'core>, Type<'core>),
    after: Elaborator<'core, 'text>,
) -> bool
    decreases expr, 0nat, 0nat,
{
    match expr.data {
        surface::Expr::Let { pat, ty, init, body, .. } => exists|
            annotated: Elaborator<'core, 'text>,
            typed: Elaborator<'core, 'text>,
            checked: Elaborator<'core, 'text>,
            fixed_state: Elaborator<'core, 'text>,
            valued: Elaborator<'core, 'text>,
            annotation: Option<Expr<'core>>,
            name: Option<Symbol<'core>>,
            ty_found: (Expr<'core>, Type<'core>),
        |
            {
                &&& #[trigger] let_rec_steps(
                    annotated,
                    typed,
                    checked,
                    fixed_state,
                    valued,
                    annotation,
                    name,
                    ty_found,
                )
                &&& match ty {
                    Some(written) => annotation is Some && check_outcome(
                        before,
                        *written,
                        Value::Prim(Prim::Type),
                        annotation->0,
                        annotated,
                    ),
                    None => annotation is None && annotated == before,
                }
                &&& name_text(name) == name_text(binder_of(*pat))
                &&& let_typed(annotated, typed, pat.range, name, annotation, ty_found)
                &&& exists|
                    inner: Elaborator<'core, 'text>,
                    inner_after: Elaborator<'core, 'text>,
                    init_term: Expr<'core>,
                    fix: (Expr<'core>, Value<'core>),
                    body_found: (Expr<'core>, Type<'core>),
                |
                    {
                        &&& #[trigger] let_rec_body(inner, inner_after, init_term, fix, body_found)
                        &&& rec_init_outcome(typed, *init, name, ty_found.1, init_term, checked)
                        &&& fixed(
                            checked,
                            fixed_state,
                            pat.range,
                            init.data is FunLit,
                            name,
                            ty_found,
                            init_term,
                            fix.0,
                        )
                        &&& evaluated(fixed_state, valued, init.range, fix.0, fix.1)
                        &&& let_entered(valued, inner, name, ty_found.1, fix.1)
                        &&& match expected {
                            Some(held) => check_outcome(
                                inner,
                                *body,
                                held,
                                body_found.0,
                                inner_after,
                            ) && body_found.1 == held,
                            None => synth_outcome(inner, *body, body_found, inner_after),
                        }
                        &&& entered(after, inner_after)
                        &&& r.0@ == Term::Let {
                            name: name_text(name),
                            ty: Box::new(ty_found.0@),
                            init: Box::new(fix.0@),
                            body: Box::new(body_found.0@),
                        }
                        &&& r.1 == body_found.1
                    }
            },
        _ => true,
    }
}

/// Whether the labels of the tuple or record literal `expr` are those of
/// the fields from `start` on of `fields`, in order.
pub open spec fn labels_agree(
    expr: Located<surface::Expr>,
    fields: Seq<(Symbol, Expr)>,
    start: nat,
) -> bool {
    &&& start <= fields.len()
    &&& fields.len() - start == field_count_spec(expr)
    &&& forall|i: int|
        0 <= i < field_count_spec(expr) ==> (#[trigger] fields[start + i]).0@ == field_text(
            expr,
            i as nat,
        )
}

/// Marks the states, the term and the value of a component that
/// [`tuple_types_outcome`] speaks of.
pub open spec fn component_steps(
    checked: Elaborator,
    valued: Elaborator,
    inner: Elaborator,
    label: Symbol,
    ty: (Expr, Value),
) -> bool {
    true
}

/// Whether `after` and `types` are what comes of elaborating the
/// components from `from` on of the tuple `expr` as types, in the state
/// `before`, where `done` are the types of those before `from`. Each
/// component is held to the type of types and evaluated, and is in scope as
/// a parameter without name, of that type, for the components after it.
/// `types` are the types of the components, each with the label of its
/// place.
pub open spec fn tuple_types_outcome<'core, 'text>(
    before: Elaborator<'core, 'text>,
    expr: Located<surface::Expr>,
    from: nat,
    done: Seq<(Symbol<'core>, Expr<'core>)>,
    types: Seq<(Symbol<'core>, Expr<'core>)>,
    after: Elaborator<'core, 'text>,
) -> bool
    decreases expr, 0nat, (match expr.data {
        surface::Expr::TupleLit(elems) => elems@.len() - from,
        _ => 0,
    }),
{
    match expr.data {
        surface::Expr::TupleLit(elems) => if from >= elems@.len() {
            after == before && types == done
        } else {
            exists|
                checked: Elaborator<'core, 'text>,
                valued: Elaborator<'core, 'text>,
                inner: Elaborator<'core, 'text>,
                label: Symbol<'core>,
                ty: (Expr<'core>, Type<'core>),
            |
                {
                    &&& #[trigger] component_steps(checked, valued, inner, label, ty)
                    &&& label@ == crate::symbol::tuple_label(from)
                    &&& check_outcome(
                        before,
                        elems@[from as int],
                        Value::Prim(Prim::Type),
                        ty.0,
                        checked,
                    )
                    &&& evaluated(checked, valued, elems@[from as int].range, ty.0, ty.1)
                    &&& param_entered(valued, inner, None, ty.1)
                    &&& tuple_types_outcome(
                        inner,
                        expr,
                        from + 1,
                        done.push((label, ty.0)),
                        types,
                        after,
                    )
                }
        },
        _ => true,
    }
}

/// Marks the states, the type, the term and the value of a field that
/// [`held_fields_outcome`] speaks of.
pub open spec fn held_field_steps(
    typed: Elaborator,
    checked: Elaborator,
    valued: Elaborator,
    ty: Value,
    field: (Expr, Value),
) -> bool {
    true
}

/// Whether `after` and `terms` are what comes of holding the components or
/// fields from `from` on of the tuple or record literal `expr` to the types
/// of the fields from `start + from` on of the telescope `fields`, in the
/// state `before`, where `env` holds the values of the variables of the
/// telescope and of the fields before, and `done` are the terms of those
/// before. The type of the field is evaluated in `env`; the field is held to
/// it and evaluated, and its value stands for the field in the types of the
/// fields after it. `terms` are the terms of the fields, each with its
/// label.
pub open spec fn held_fields_outcome<'core, 'text>(
    before: Elaborator<'core, 'text>,
    expr: Located<surface::Expr>,
    from: nat,
    fields: Seq<(Symbol<'core>, Expr<'core>)>,
    start: nat,
    env: ValueEnv<'core>,
    done: Seq<(Symbol<'core>, Expr<'core>)>,
    terms: Seq<(Symbol<'core>, Expr<'core>)>,
    after: Elaborator<'core, 'text>,
) -> bool
    decreases expr, 0nat, field_count_spec(expr) - from,
{
    if from >= field_count_spec(expr) {
        after == before && terms == done
    } else {
        let part = match expr.data {
            surface::Expr::TupleLit(elems) => elems@[from as int],
            surface::Expr::RecordLit(names) => names@[from as int].expr,
            _ => expr,
        };
        exists|
            typed: Elaborator<'core, 'text>,
            checked: Elaborator<'core, 'text>,
            valued: Elaborator<'core, 'text>,
            ty: Type<'core>,
            field: (Expr<'core>, Value<'core>),
        |
            {
                &&& #[trigger] held_field_steps(typed, checked, valued, ty, field)
                &&& value_or_reported(
                    before,
                    typed,
                    expr.range,
                    eval_spec(
                        elab_opts(),
                        before.meta_env.values@,
                        env,
                        fields[(start + from) as int].1,
                        before.fuel as nat,
                    ),
                    ty,
                )
                &&& check_outcome(typed, part, ty, field.0, checked)
                &&& evaluated(checked, valued, part.range, field.0, field.1)
                &&& held_fields_outcome(
                    valued,
                    expr,
                    from + 1,
                    fields,
                    start,
                    env.pushed(field.1),
                    done.push((fields[(start + from) as int].0, field.0)),
                    terms,
                    after,
                )
            }
    }
}

/// Marks the state and the type that [`check_record_outcome`] speaks of.
pub open spec fn record_forced(forced: Elaborator, ty: Value) -> bool {
    true
}

/// Marks the state and the types that [`check_record_outcome`] speaks of
/// for a tuple of types.
pub open spec fn tuple_typed(deep: Elaborator, types: Seq<(Symbol, Expr)>) -> bool {
    true
}

/// Marks the state and the term and type that [`check_record_outcome`]
/// speaks of for a record that is converted.
pub open spec fn record_found(found: Elaborator, record: (Expr, Value)) -> bool {
    true
}

/// Marks the terms that [`check_record_outcome`] speaks of for a record
/// that is held to a record type.
pub open spec fn record_held(terms: Seq<(Symbol, Expr)>) -> bool {
    true
}

/// Whether `after` and `r` are what comes of finding the type of the tuple
/// or record literal `expr` and converting it to the type `expected`, from
/// the state `before`.
pub open spec fn record_converted<'core, 'text>(
    before: Elaborator<'core, 'text>,
    expr: Located<surface::Expr>,
    expected: Type<'core>,
    r: Expr<'core>,
    after: Elaborator<'core, 'text>,
) -> bool
    decreases expr, 0nat, field_count_spec(expr) + 2,
{
    exists|found: Elaborator<'core, 'text>, record: (Expr<'core>, Type<'core>)|
        {
            &&& #[trigger] record_found(found, record)
            &&& record_lit_outcome(before, expr, record, found)
            &&& converted(found, after, expr.range, record.0, record.1, expected, r)
        }
}

/// Whether `after` and `r` are what comes of holding the tuple or record
/// literal `expr` to the type `expected` in the state `before`. The type is
/// forced:
///
/// - where it is the type of types, a tuple is the record type of its
///   components, elaborated as [`tuple_types_outcome`] says, and a record
///   without fields is the record type without fields;
/// - where it is a record type with the labels of `expr`, in order, the
///   fields are held to its types as [`held_fields_outcome`] says, and the
///   term is the record of their terms;
/// - else the type of `expr` is found, and the term converted to
///   `expected`.
pub open spec fn check_record_outcome<'core, 'text>(
    before: Elaborator<'core, 'text>,
    expr: Located<surface::Expr>,
    expected: Type<'core>,
    r: Expr<'core>,
    after: Elaborator<'core, 'text>,
) -> bool
    decreases expr, 0nat, field_count_spec(expr) + 3,
{
    exists|forced: Elaborator<'core, 'text>, ty: Type<'core>|
        {
            &&& #[trigger] record_forced(forced, ty)
            &&& value_or_reported(
                before,
                forced,
                expr.range,
                force_spec(elab_opts(), before.meta_env.values@, expected, before.fuel as nat),
                ty,
            )
            &&& match ty {
                Value::Prim(Prim::Type) => if expr.data is TupleLit {
                    exists|deep: Elaborator<'core, 'text>, types: Seq<(Symbol<'core>, Expr<'core>)>|
                        {
                            &&& #[trigger] tuple_typed(deep, types)
                            &&& tuple_types_outcome(forced, expr, 0, Seq::empty(), types, deep)
                            &&& restored(
                                deep,
                                after,
                                forced.local_env.names@.len(),
                                forced.local_env.values,
                            )
                            &&& r matches Expr::RecordType(fields) && fields@ == types
                        }
                } else if field_count_spec(expr) == 0 {
                    &&& after == forced
                    &&& r matches Expr::RecordType(fields) && fields@.len() == 0
                } else {
                    record_converted(forced, expr, expected, r, after)
                },
                Value::RecordType(telescope) => if labels_agree(
                    expr,
                    telescope.fields@,
                    telescope.start as nat,
                ) {
                    exists|terms: Seq<(Symbol<'core>, Expr<'core>)>|
                        {
                            &&& #[trigger] record_held(terms)
                            &&& held_fields_outcome(
                                forced,
                                expr,
                                0,
                                telescope.fields@,
                                telescope.start as nat,
                                telescope.env,
                                Seq::empty(),
                                terms,
                                after,
                            )
                            &&& r matches Expr::RecordLit(fields) && fields@ == terms
                        }
                } else {
                    record_converted(forced, expr, expected, r, after)
                },
                _ => record_converted(forced, expr, expected, r, after),
            }
        }
}

/// What is reported of a literal in a pattern that must not fail.
pub open spec fn refutable_message() -> Seq<char> {
    "A literal pattern may fail to match: use `match`"@
}

/// What is reported of a pattern with more or fewer fields than the record.
pub open spec fn field_count_message() -> Seq<char> {
    "The pattern and the record have different numbers of fields"@
}

/// What is reported of a pattern that lacks the field `label` in its place.
pub open spec fn expected_field_message(label: Seq<char>) -> Seq<char> {
    "Expected field `"@ + label + "`"@
}

/// The number of components of a tuple pattern or of fields of a record
/// pattern.
pub open spec fn pat_count(pat: Located<surface::Pat>) -> nat {
    match pat.data {
        surface::Pat::Tuple(pats) => pats@.len(),
        surface::Pat::RecordLit(pats) => pats@.len(),
        _ => 0,
    }
}

/// Whether `label` is the label of the component or field `index` of a
/// tuple or record pattern.
pub open spec fn pat_label_is(pat: Located<surface::Pat>, index: nat, label: Seq<char>) -> bool {
    match pat.data {
        surface::Pat::Tuple(_) => label == crate::symbol::tuple_label(index),
        surface::Pat::RecordLit(pats) => pats@[index as int].name.data@ == label,
        _ => false,
    }
}

/// Marks the term, the name and the initialiser that [`pat_outcome`] speaks
/// of for a name.
pub open spec fn bound_steps(ty_term: Expr, init: Expr, name: Symbol) -> bool {
    true
}

/// Marks the term that [`pat_outcome`] speaks of for a literal.
pub open spec fn lit_held(held: Expr) -> bool {
    true
}

/// Marks the state and the type that [`pat_outcome`] speaks of for a tuple
/// or record pattern.
pub open spec fn pat_forced(forced: Elaborator, ty: Value) -> bool {
    true
}

/// Marks the patterns of the fields that [`pat_outcome`] speaks of.
pub open spec fn pat_fields_found(complete: bool, fields: Seq<(Symbol, crate::syntax::Pat)>) -> bool {
    true
}

/// Marks the state, the pattern and the bindings of a field that
/// [`pat_fields_outcome`] speaks of.
pub open spec fn pat_field_steps(
    found: Elaborator,
    sub: crate::syntax::Pat,
    bindings: Seq<(Option<Symbol>, Expr, Expr)>,
) -> bool {
    true
}

/// Whether `after`, `r` and `bindings` are what comes of elaborating the
/// pattern `pat` against the scrutinee `expr`, of the value `value` and the
/// type `ty`, in the state `before`, where `base` variables are in scope
/// and `done` are the bindings before.
///
/// - An error and a wildcard bind nothing.
/// - A name is bound: its type is `ty`, read back in the scope of the
///   bindings before; its initialiser is the scrutinee in that scope.
/// - A pattern in parentheses elaborates as the pattern in them.
/// - A literal, where the pattern may fail as `refutable` says, is the
///   constant that it stands for, whose type is unified with `ty`; where the
///   pattern must not fail, the literal is reported.
/// - For a tuple or a record, `ty` is forced; where it is a record type, the
///   fields are elaborated as [`pat_fields_outcome`] says; anything but the
///   error value is reported to be no record.
///
/// Whatever is reported, the pattern is the error pattern.
pub open spec fn pat_outcome<'core, 'text>(
    before: Elaborator<'core, 'text>,
    pat: Located<surface::Pat>,
    expr: Expr<'core>,
    value: Value<'core>,
    ty: Type<'core>,
    base: usize,
    done: Seq<Binding<'core>>,
    refutable: bool,
    r: crate::syntax::Pat<'core>,
    bindings: Seq<Binding<'core>>,
    after: Elaborator<'core, 'text>,
) -> bool
    decreases pat, 1nat, 0nat,
{
    match pat.data {
        surface::Pat::Error => r == crate::syntax::Pat::Error && after == before && bindings
            == done,
        surface::Pat::Underscore => r == crate::syntax::Pat::Underscore && after == before
            && bindings == done,
        surface::Pat::Ident(name) => if base + done.len() > usize::MAX {
            &&& r == crate::syntax::Pat::Error
            &&& bindings == done
            &&& reported(before, after, pat.range, limit_message())
        } else {
            exists|ty_term: Expr<'core>, init: Expr<'core>, sym: Symbol<'core>|
                {
                    &&& #[trigger] bound_steps(ty_term, init, sym)
                    &&& read_back_at(
                        before,
                        after,
                        pat.range,
                        (base + done.len()) as usize,
                        ty,
                        ty_term,
                    )
                    &&& if expr.can_shift(done.len()) {
                        init@ == expr@.shift(done.len())
                    } else {
                        init == Expr::Error
                    }
                    &&& sym@ == name@
                    &&& bindings == done.push((Some(sym), ty_term, init))
                    &&& r == crate::syntax::Pat::Ident(sym)
                }
        },
        surface::Pat::Paren(inner) => pat_outcome(
            before,
            *inner,
            expr,
            value,
            ty,
            base,
            done,
            refutable,
            r,
            bindings,
            after,
        ),
        surface::Pat::Lit(lit) => bindings == done && if !refutable {
            r == crate::syntax::Pat::Error && reported(
                before,
                after,
                pat.range,
                refutable_message(),
            )
        } else {
            match const_value(before.text.spec_bytes(), pat.range, lit) {
                Some(constant) => exists|held: Expr<'core>|
                    {
                        &&& #[trigger] lit_held(held)
                        &&& held_to(
                            before,
                            after,
                            pat.range,
                            Expr::Lit(constant),
                            const_type::<'core>(constant),
                            ty,
                            held,
                        )
                        &&& r == if held is Lit {
                            crate::syntax::Pat::Lit(constant)
                        } else {
                            crate::syntax::Pat::Error
                        }
                    },
                None => r == crate::syntax::Pat::Error && reported(
                    before,
                    after,
                    pat.range,
                    "Invalid integer literal"@,
                ),
            }
        },
        surface::Pat::Tuple(_) | surface::Pat::RecordLit(_) => exists|
            forced: Elaborator<'core, 'text>,
            forced_ty: Type<'core>,
        |
            {
                &&& #[trigger] pat_forced(forced, forced_ty)
                &&& value_or_reported(
                    before,
                    forced,
                    pat.range,
                    force_spec(elab_opts(), before.meta_env.values@, ty, before.fuel as nat),
                    forced_ty,
                )
                &&& match forced_ty {
                    Value::RecordType(telescope) => exists|
                        complete: bool,
                        fields: Seq<(Symbol<'core>, crate::syntax::Pat<'core>)>,
                    |
                        {
                            &&& #[trigger] pat_fields_found(complete, fields)
                            &&& pat_fields_outcome(
                                forced,
                                pat,
                                0,
                                expr,
                                value,
                                telescope.env,
                                telescope.fields@,
                                telescope.start as nat,
                                base,
                                done,
                                Seq::empty(),
                                refutable,
                                complete,
                                fields,
                                bindings,
                                after,
                            )
                            &&& if complete {
                                r matches crate::syntax::Pat::RecordLit(found) && found@ == fields
                            } else {
                                r == crate::syntax::Pat::Error
                            }
                        },
                    Value::Neutral(Head::Error, _) => {
                        &&& r == crate::syntax::Pat::Error
                        &&& bindings == done
                        &&& after == forced
                    },
                    _ => {
                        &&& r == crate::syntax::Pat::Error
                        &&& bindings == done
                        &&& after.meta_env == forced.meta_env
                        &&& after.diagnostics@.len() == forced.diagnostics@.len() + 1
                        &&& exists|shown: Seq<char>|
                            {
                                &&& is_error(
                                    after.diagnostics@.last(),
                                    before.file_id,
                                    pat.range,
                                    #[trigger] not_record_message(shown),
                                )
                                &&& value_shown(forced, forced_ty, shown)
                            }
                    },
                }
            },
    }
}

/// Whether `after`, `complete`, `out` and `bindings` are what comes of
/// elaborating the components or fields from `from` on of the tuple or
/// record pattern `pat` against the fields from `start` on of the telescope
/// `fields`, in the state `before`. `expr` is the record and `value` its
/// value; `env` holds the values of the variables of the telescope and of
/// the fields before; `done` are the bindings and `done_out` the patterns of
/// the fields before. A field is elaborated against the projection of its
/// label from the record, whose type is the type of the field of the
/// telescope in `env`. The pattern is complete where it and the telescope
/// end together and every field has the label of its place; else the first
/// thing amiss is reported, and the rest is left out.
pub open spec fn pat_fields_outcome<'core, 'text>(
    before: Elaborator<'core, 'text>,
    pat: Located<surface::Pat>,
    from: nat,
    expr: Expr<'core>,
    value: Value<'core>,
    env: ValueEnv<'core>,
    fields: Seq<(Symbol<'core>, Expr<'core>)>,
    start: nat,
    base: usize,
    done: Seq<Binding<'core>>,
    done_out: Seq<(Symbol<'core>, crate::syntax::Pat<'core>)>,
    refutable: bool,
    complete: bool,
    out: Seq<(Symbol<'core>, crate::syntax::Pat<'core>)>,
    bindings: Seq<Binding<'core>>,
    after: Elaborator<'core, 'text>,
) -> bool
    decreases pat, 0nat, pat_count(pat) - from,
{
    if from >= pat_count(pat) || start >= fields.len() {
        &&& bindings == done
        &&& out == done_out
        &&& if from < pat_count(pat) || start < fields.len() {
            !complete && reported(before, after, pat.range, field_count_message())
        } else {
            complete && after == before
        }
    } else {
        let label = fields[start as int].0;
        let part = match pat.data {
            surface::Pat::Tuple(pats) => pats@[from as int],
            surface::Pat::RecordLit(pats) => pats@[from as int].pat,
            _ => pat,
        };
        if !pat_label_is(pat, from, label@) {
            &&& !complete
            &&& bindings == done
            &&& out == done_out
            &&& reported(before, after, pat.range, expected_field_message(label@))
        } else {
            match eval_spec(
                elab_opts(),
                before.meta_env.values@,
                env,
                fields[start as int].1,
                before.fuel as nat,
            ) {
                None => {
                    &&& !complete
                    &&& bindings == done
                    &&& out == done_out
                    &&& reported(before, after, pat.range, limit_message())
                },
                Some(field_ty) => exists|
                    found: Elaborator<'core, 'text>,
                    sub: crate::syntax::Pat<'core>,
                    sub_bindings: Seq<Binding<'core>>,
                |
                    {
                        &&& #[trigger] pat_field_steps(found, sub, sub_bindings)
                        &&& pat_outcome(
                            before,
                            part,
                            Expr::RecordProj(&expr, label),
                            project_spec(value, label),
                            field_ty,
                            base,
                            done,
                            refutable,
                            sub,
                            sub_bindings,
                            found,
                        )
                        &&& pat_fields_outcome(
                            found,
                            pat,
                            from + 1,
                            expr,
                            value,
                            env.pushed(project_spec(value, label)),
                            fields,
                            start + 1,
                            base,
                            sub_bindings,
                            done_out.push((label, sub)),
                            refutable,
                            complete,
                            out,
                            bindings,
                            after,
                        )
                    },
            }
        }
    }
}

/// Marks the states, the pattern, the bindings and the terms of an arm
/// that [`arms_outcome`] speaks of.
pub open spec fn arm_steps(
    patterned: Elaborator,
    deep: Elaborator,
    guarded: Elaborator,
    deep_after: Elaborator,
    back: Elaborator,
    pat: crate::syntax::Pat,
    bindings: (Seq<(Option<Symbol>, Expr, Expr)>, Seq<(Option<Symbol>, Expr, Expr)>),
    found: (Option<Expr>, Expr),
) -> bool {
    true
}

/// Whether `after`, `rows` and `bodies` are what comes of elaborating the
/// arms from `from` on of the match `expr` in the state `before`, where
/// `expected` is the type that the arms are held to, and `done_rows` and
/// `done_bodies` are the rows and the bodies of the arms before `from`. The
/// pattern of an arm is elaborated against the scrutinee as [`pat_outcome`]
/// says, and its bindings are brought into scope as [`bindings_entered`]
/// says. In
/// that scope the guard, where there is one, is held to `Bool`, and the
/// right-hand side to `expected`. Then the scope is as before the arm. The
/// row of the arm has the pattern and the number of the arm; its body is the
/// right-hand side under the bindings, and so is its guard.
pub open spec fn arms_outcome<'core, 'text>(
    before: Elaborator<'core, 'text>,
    expr: Located<surface::Expr>,
    from: nat,
    scrut: (Expr<'core>, Type<'core>),
    scrut_value: Value<'core>,
    expected: Type<'core>,
    done_rows: Seq<RowModel>,
    done_bodies: Seq<(Option<Term>, Term)>,
    rows: Seq<RowModel>,
    bodies: Seq<(Option<Term>, Term)>,
    after: Elaborator<'core, 'text>,
) -> bool
    decreases expr, 0nat, (match expr.data {
        surface::Expr::Match { arms, .. } => arms@.len() - from,
        _ => 0,
    }),
{
    match expr.data {
        surface::Expr::Match { arms, .. } => if from >= arms@.len() {
            after == before && rows == done_rows && bodies == done_bodies
        } else {
            let arm = arms@[from as int];
            exists|
                patterned: Elaborator<'core, 'text>,
                deep: Elaborator<'core, 'text>,
                guarded: Elaborator<'core, 'text>,
                deep_after: Elaborator<'core, 'text>,
                back: Elaborator<'core, 'text>,
                pat: crate::syntax::Pat<'core>,
                bindings: (Seq<Binding<'core>>, Seq<Binding<'core>>),
                found: (Option<Expr<'core>>, Expr<'core>),
            |
                {
                    &&& #[trigger] arm_steps(
                        patterned,
                        deep,
                        guarded,
                        deep_after,
                        back,
                        pat,
                        bindings,
                        found,
                    )
                    &&& pat_outcome(
                        before,
                        arm.pat,
                        scrut.0,
                        scrut_value,
                        scrut.1,
                        before.local_env.names@.len() as usize,
                        Seq::empty(),
                        true,
                        pat,
                        bindings.0,
                        patterned,
                    )
                    &&& bindings_entered(patterned, deep, arm.pat.range, bindings.0, bindings.1)
                    &&& match arm.guard {
                        Some(guard) => found.0 is Some && check_outcome(
                            deep,
                            guard,
                            Value::Prim(Prim::Bool),
                            found.0->0,
                            guarded,
                        ),
                        None => found.0 is None && guarded == deep,
                    }
                    &&& check_outcome(guarded, arm.rhs, expected, found.1, deep_after)
                    &&& restored(
                        deep_after,
                        back,
                        before.local_env.names@.len(),
                        before.local_env.values,
                    )
                    &&& arms_outcome(
                        back,
                        expr,
                        from + 1,
                        scrut,
                        scrut_value,
                        expected,
                        done_rows.push(
                            RowModel {
                                pats: seq![pat_model(pat)],
                                guarded: arm.guard is Some,
                                body: from,
                            },
                        ),
                        done_bodies.push(
                            (
                                match found.0 {
                                    Some(guard) => Some(
                                        lets_term(bindings_model(bindings.1), guard@),
                                    ),
                                    None => None,
                                },
                                lets_term(bindings_model(bindings.1), found.1@),
                            ),
                        ),
                        rows,
                        bodies,
                        after,
                    )
                }
        },
        _ => true,
    }
}

/// The numbers below `upto` of the arms that the tree never takes,
/// ascending.
pub open spec fn untaken(tree: Tree, upto: nat) -> Seq<nat>
    decreases upto,
{
    if upto == 0 {
        Seq::empty()
    } else {
        let before = untaken(tree, (upto - 1) as nat);
        if tree_takes(tree, (upto - 1) as nat) {
            before
        } else {
            before.push((upto - 1) as nat)
        }
    }
}

/// Whether `diagnostic` is the warning `message` about `range`, with no
/// remark and no further places.
pub open spec fn is_warning(
    diagnostic: Diagnostic,
    file_id: usize,
    range: TextRange,
    message: Seq<char>,
) -> bool {
    &&& diagnostic.severity == Severity::Warning
    &&& diagnostic.message@ == message
    &&& diagnostic.primary_label.file_id == file_id
    &&& diagnostic.primary_label.range == range
    &&& diagnostic.primary_label.message is None
    &&& diagnostic.secondary_labels@.len() == 0
}

/// Whether `after` is `before` with a warning more for each of the first
/// `upto` arms of the match `expr` that the tree never takes, in order,
/// about the pattern of the arm.
pub open spec fn warned(
    before: Elaborator,
    after: Elaborator,
    expr: Located<surface::Expr>,
    tree: Tree,
    upto: nat,
) -> bool {
    let missed = untaken(tree, upto);
    &&& after.wf()
    &&& after.bump == before.bump
    &&& after.text == before.text
    &&& after.file_id == before.file_id
    &&& after.fuel == before.fuel
    &&& after.local_env == before.local_env
    &&& after.meta_env == before.meta_env
    &&& after.diagnostics@.len() == before.diagnostics@.len() + missed.len()
    &&& after.diagnostics@.take(before.diagnostics@.len() as int) == before.diagnostics@
    &&& forall|k: int|
        0 <= k < missed.len() ==> is_warning(
            #[trigger] after.diagnostics@[before.diagnostics@.len() + k],
            before.file_id,
            expr.data->arms@[missed[k] as int].pat.range,
            "Unreachable pattern"@,
        )
}

/// Marks the states, the term, the type and the value of the scrutinee,
/// and the rows and bodies that [`match_outcome`] speaks of.
pub open spec fn match_steps(
    found: Elaborator,
    valued: Elaborator,
    walked: Elaborator,
    scrut: (Expr, Value),
    scrut_value: Value,
    rows: Seq<RowModel>,
    bodies: Seq<(Option<Term>, Term)>,
) -> bool {
    true
}

/// Marks the state that [`match_outcome`] speaks of where a value is left
/// without an arm.
pub open spec fn match_told(told: Elaborator) -> bool {
    true
}

/// Whether `after` and `r` are what comes of elaborating the match `expr`,
/// held to the type `expected`, in the state `before`. The type of the
/// scrutinee is found, and the scrutinee is evaluated. The arms are
/// elaborated as [`arms_outcome`] says, and their rows are compiled to a
/// decision tree. Where the tree leaves a value without an arm, that is
/// reported; each arm that the tree never takes is warned of, as [`warned`]
/// says. The term is the term of the tree, as [`tree_term`] says. Where
/// compiling needs more steps than the elaborator allows, that is reported,
/// and the term is the error term.
pub open spec fn match_outcome<'core, 'text>(
    before: Elaborator<'core, 'text>,
    expr: Located<surface::Expr>,
    expected: Type<'core>,
    r: Expr<'core>,
    after: Elaborator<'core, 'text>,
) -> bool
    decreases expr, 0nat, (match expr.data {
        surface::Expr::Match { arms, .. } => arms@.len() + 1,
        _ => 0,
    }),
{
    match expr.data {
        surface::Expr::Match { scrut, arms } => exists|
            found: Elaborator<'core, 'text>,
            valued: Elaborator<'core, 'text>,
            walked: Elaborator<'core, 'text>,
            scrut_found: (Expr<'core>, Type<'core>),
            scrut_value: Value<'core>,
            rows: Seq<RowModel>,
            bodies: Seq<(Option<Term>, Term)>,
        |
            {
                &&& #[trigger] match_steps(
                    found,
                    valued,
                    walked,
                    scrut_found,
                    scrut_value,
                    rows,
                    bodies,
                )
                &&& synth_outcome(before, *scrut, scrut_found, found)
                &&& evaluated(found, valued, scrut.range, scrut_found.0, scrut_value)
                &&& arms_outcome(
                    valued,
                    expr,
                    0,
                    scrut_found,
                    scrut_value,
                    expected,
                    Seq::empty(),
                    Seq::empty(),
                    rows,
                    bodies,
                    walked,
                )
                &&& match compile_spec(rows, seq![Seq::empty()], before.fuel as nat) {
                    Some(tree) => exists|told: Elaborator<'core, 'text>|
                        {
                            &&& #[trigger] match_told(told)
                            &&& if tree_fails(tree) {
                                reported(walked, told, expr.range, "Non-exhaustive match"@)
                            } else {
                                told == walked
                            }
                            &&& warned(told, after, expr, tree, arms@.len())
                            &&& r@ == tree_term(tree, scrut_found.0@, bodies)
                        },
                    None => r == Expr::Error && reported(
                        walked,
                        after,
                        expr.range,
                        limit_message(),
                    ),
                }
            },
        _ => true,
    }
}

/// Whether `after` and `r`, a term and its type, are what comes of finding
/// the type of the application `expr` in the state `before`. The type of
/// the function is found. Before an explicit argument, the function is
/// applied to implicit arguments as [`implicits_inserted`] says. Then its
/// type is forced:
///
/// - where it is the type of a function that takes an argument as the one
///   given, written out or implicit, the argument is held to the type of the
///   parameter and evaluated; the term is the application, and its type the
///   body of the function type for the value of the argument;
/// - where it is the type of a function that takes the other kind of
///   argument, that is reported as [`is_plicity_error`] says;
/// - where it is the error value, nothing more is reported;
/// - else the function is reported to be none.
///
/// In the last three cases the term is the error term.
pub open spec fn app_outcome<'core, 'text>(
    before: Elaborator<'core, 'text>,
    expr: Located<surface::Expr>,
    r: (Expr<'core>, Type<'core>),
    after: Elaborator<'core, 'text>,
) -> bool
    decreases expr, 0nat, 0nat,
{
    match expr.data {
        surface::Expr::FunApp { fun, arg } => exists|
            found: Elaborator<'core, 'text>,
            applied: Elaborator<'core, 'text>,
            forced: Elaborator<'core, 'text>,
            fun_first: (Expr<'core>, Type<'core>),
            fun_applied: (Expr<'core>, Type<'core>),
            fun_ty: Type<'core>,
        |
            {
                &&& #[trigger] app_steps(found, applied, forced, fun_first, fun_applied, fun_ty)
                &&& synth_outcome(before, *fun, fun_first, found)
                &&& match arg.data.plicity {
                    Plicity::Explicit => implicits_inserted(
                        found,
                        applied,
                        fun.range,
                        fun_first.0,
                        fun_first.1,
                        fun_applied,
                        found.fuel as nat,
                    ),
                    Plicity::Implicit => applied == found && fun_applied == fun_first,
                }
                &&& value_or_reported(
                    applied,
                    forced,
                    fun.range,
                    force_spec(
                        elab_opts(),
                        applied.meta_env.values@,
                        fun_applied.1,
                        applied.fuel as nat,
                    ),
                    fun_ty,
                )
                &&& match fun_ty {
                    Value::FunType { param, body } => if param.plicity == arg.data.plicity {
                        exists|
                            checked: Elaborator<'core, 'text>,
                            valued: Elaborator<'core, 'text>,
                            arg_term: Expr<'core>,
                            arg_value: Value<'core>,
                        |
                            {
                                &&& #[trigger] arg_steps(checked, valued, arg_term, arg_value)
                                &&& check_outcome(
                                    forced,
                                    *arg.data.expr,
                                    *param.ty,
                                    arg_term,
                                    checked,
                                )
                                &&& evaluated(checked, valued, arg.range, arg_term, arg_value)
                                &&& value_or_reported(
                                    valued,
                                    after,
                                    expr.range,
                                    eval_spec(
                                        elab_opts(),
                                        valued.meta_env.values@,
                                        body.env.pushed(arg_value),
                                        *body.body,
                                        valued.fuel as nat,
                                    ),
                                    r.1,
                                )
                                &&& r.0@ == Term::FunApp {
                                    fun: Box::new(fun_applied.0@),
                                    plicity: arg.data.plicity,
                                    arg: Box::new(arg_term@),
                                }
                            }
                    } else {
                        &&& r == (Expr::Error, error_value::<'core>())
                        &&& after.meta_env == forced.meta_env
                        &&& after.diagnostics@.len() == forced.diagnostics@.len() + 1
                        &&& is_plicity_error(
                            after.diagnostics@.last(),
                            forced,
                            fun_ty,
                            fun.range,
                            arg.range,
                            arg.data.plicity,
                        )
                    },
                    Value::Neutral(Head::Error, _) => {
                        &&& r == (Expr::Error, error_value::<'core>())
                        &&& silent(forced, after)
                    },
                    _ => {
                        &&& r == (Expr::Error, error_value::<'core>())
                        &&& after.meta_env == forced.meta_env
                        &&& after.diagnostics@.len() == forced.diagnostics@.len() + 1
                        &&& exists|shown: Seq<char>|
                            {
                                &&& is_error(
                                    after.diagnostics@.last(),
                                    before.file_id,
                                    fun.range,
                                    #[trigger] not_function_message(shown),
                                )
                                &&& value_shown(forced, fun_ty, shown)
                            }
                    },
                }
            },
        _ => true,
    }
}

/// Whether `after` and `r`, a term and its type, are what comes of finding
/// the type of `expr` in the state `before`, form by form:
///
/// - an error, a literal, a name and a hole elaborate as [`leaf_outcome`]
///   says;
/// - an expression in parentheses elaborates as the expression in them;
/// - for `expr : ty`, `ty` is held to the type of types and evaluated, and
///   `expr` is held to the value, which is the type;
/// - for `if cond then a else b`, `cond` is held to `Bool`, the type of `a`
///   is found and `b` is held to it; the term is the match on the
///   condition, of the type of `a`;
/// - for `lhs -> rhs`, `lhs` is held to the type of types and evaluated,
///   and `rhs` is held to the type of types in the scope of a parameter
///   without name, of the value of `lhs` as its type; the term is the
///   function type, of the type of types;
/// - a `let` elaborates as [`let_outcome`] says, and a `let rec` as
///   [`let_rec_outcome`] says;
/// - a function type elaborates as [`fun_type_outcome`] says, and its type
///   is the type of types;
/// - a function literal elaborates as [`fun_lit_outcome`] says, and its
///   type is the value of the type found there;
/// - an application elaborates as [`app_outcome`] says, a list literal as
///   [`list_outcome`] says, a tuple and a record as [`record_lit_outcome`]
///   says, a record type as [`record_type_outcome`] says, with the type of
///   types for its type, and a projection as [`proj_outcome`] says;
/// - a match is held to a fresh metavariable, which is its type, as
///   [`match_outcome`] says.
pub open spec fn synth_outcome<'core, 'text>(
    before: Elaborator<'core, 'text>,
    expr: Located<surface::Expr>,
    r: (Expr<'core>, Type<'core>),
    after: Elaborator<'core, 'text>,
) -> bool
    decreases expr, 1nat, 0nat,
{
    match expr.data {
        surface::Expr::Error
        | surface::Expr::Const(_)
        | surface::Expr::LocalVar(_)
        | surface::Expr::Hole => leaf_outcome(before, after, expr, r),
        surface::Expr::Paren(inner) => synth_outcome(before, *inner, r, after),
        surface::Expr::Ann { expr: inner, ty } => exists|
            checked: Elaborator<'core, 'text>,
            valued: Elaborator<'core, 'text>,
            ty_term: Expr<'core>,
        |
            {
                &&& #[trigger] ann_steps(checked, valued, ty_term)
                &&& check_outcome(before, *ty, Value::Prim(Prim::Type), ty_term, checked)
                &&& evaluated(checked, valued, ty.range, ty_term, r.1)
                &&& check_outcome(valued, *inner, r.1, r.0, after)
            },
        surface::Expr::If { cond, then_branch, else_branch } => exists|
            first: Elaborator<'core, 'text>,
            second: Elaborator<'core, 'text>,
            cond_term: Expr<'core>,
            then_term: Expr<'core>,
            else_term: Expr<'core>,
        |
            {
                &&& #[trigger] if_steps(first, second, cond_term, then_term, else_term)
                &&& check_outcome(before, *cond, Value::Prim(Prim::Bool), cond_term, first)
                &&& synth_outcome(first, *then_branch, (then_term, r.1), second)
                &&& check_outcome(second, *else_branch, r.1, else_term, after)
                &&& r.0@ == Term::MatchBool {
                    cond: Box::new(cond_term@),
                    then_branch: Box::new(then_term@),
                    else_branch: Box::new(else_term@),
                }
            },
        surface::Expr::FunArrow { plicity, lhs, rhs } => exists|
            checked: Elaborator<'core, 'text>,
            valued: Elaborator<'core, 'text>,
            inner: Elaborator<'core, 'text>,
            inner_after: Elaborator<'core, 'text>,
            lhs_term: Expr<'core>,
            lhs_value: Value<'core>,
            rhs_term: Expr<'core>,
        |
            {
                &&& #[trigger] arrow_steps(
                    checked,
                    valued,
                    inner,
                    inner_after,
                    lhs_term,
                    lhs_value,
                    rhs_term,
                )
                &&& check_outcome(before, *lhs, Value::Prim(Prim::Type), lhs_term, checked)
                &&& evaluated(checked, valued, lhs.range, lhs_term, lhs_value)
                &&& param_entered(valued, inner, None, lhs_value)
                &&& check_outcome(inner, *rhs, Value::Prim(Prim::Type), rhs_term, inner_after)
                &&& entered(after, inner_after)
                &&& r.0@ == Term::FunType {
                    plicity,
                    name: None,
                    ty: Box::new(lhs_term@),
                    body: Box::new(rhs_term@),
                }
                &&& r.1 == Value::Prim(Prim::Type)
            },
        surface::Expr::Let { rec, .. } => if rec {
            let_rec_outcome(before, expr, None, r, after)
        } else {
            let_outcome(before, expr, None, r, after)
        },
        surface::Expr::FunType { .. } => fun_type_outcome(before, expr, 0, r.0, after) && r.1
            == Value::Prim(Prim::Type),
        surface::Expr::FunLit { .. } => exists|
            made: Elaborator<'core, 'text>,
            found: (Expr<'core>, Expr<'core>),
        |
            {
                &&& #[trigger] lit_steps(made, found)
                &&& fun_lit_outcome(before, expr, 0, found, made)
                &&& evaluated(made, after, expr.range, found.1, r.1)
                &&& r.0 == found.0
            },
        surface::Expr::FunApp { .. } => app_outcome(before, expr, r, after),
        surface::Expr::ListLit(_) => list_outcome(before, expr, None, r, after),
        surface::Expr::RecordType(_) => record_type_outcome(before, expr, r.0, after) && r.1
            == Value::Prim(Prim::Type),
        surface::Expr::TupleLit(_) | surface::Expr::RecordLit(_) => record_lit_outcome(
            before,
            expr,
            r,
            after,
        ),
        surface::Expr::RecordProj { .. } => proj_outcome(before, expr, r, after),
        surface::Expr::Match { .. } => exists|made: Elaborator<'core, 'text>|
            {
                &&& #[trigger] made_step(made)
                &&& fresh_typed(
                    before,
                    made,
                    expr.range,
                    MetaSource::HoleType { range: expr.range },
                    r.1,
                )
                &&& match_outcome(made, expr, r.1, r.0, after)
            },
    }
}

/// Whether `after` and `r` are what comes of holding `expr` to the type
/// `expected` in the state `before`, form by form:
///
/// - an error elaborates to the error term;
/// - an expression in parentheses elaborates as the expression in them;
/// - for `if cond then a else b`, `cond` is held to `Bool` and `a` and `b`
///   to `expected`; the term is the match on the condition;
/// - for a form that has no rule of its own for being held to a type, the
///   type of `expr` is found and the term is converted to `expected`, as
///   [`converted`] says;
/// - a `let` elaborates as [`let_outcome`] says, and a `let rec` as
///   [`let_rec_outcome`] says;
/// - for a list literal, `expected` is forced; where it is the type of the
///   lists of some type, the items are held to that type, as
///   [`list_outcome`] says; else the list literal is elaborated without a
///   type for its items and converted to `expected`;
/// - a function literal elaborates as [`check_lit_outcome`] says, a tuple
///   and a record as [`check_record_outcome`] says, and a match as
///   [`match_outcome`] says.
pub open spec fn check_outcome<'core, 'text>(
    before: Elaborator<'core, 'text>,
    expr: Located<surface::Expr>,
    expected: Type<'core>,
    r: Expr<'core>,
    after: Elaborator<'core, 'text>,
) -> bool
    decreases expr, 2nat, 0nat,
{
    match expr.data {
        surface::Expr::Error => r == Expr::Error && silent(before, after),
        surface::Expr::Paren(inner) => check_outcome(before, *inner, expected, r, after),
        surface::Expr::If { cond, then_branch, else_branch } => exists|
            first: Elaborator<'core, 'text>,
            second: Elaborator<'core, 'text>,
            cond_term: Expr<'core>,
            then_term: Expr<'core>,
            else_term: Expr<'core>,
        |
            {
                &&& #[trigger] if_steps(first, second, cond_term, then_term, else_term)
                &&& check_outcome(before, *cond, Value::Prim(Prim::Bool), cond_term, first)
                &&& check_outcome(first, *then_branch, expected, then_term, second)
                &&& check_outcome(second, *else_branch, expected, else_term, after)
                &&& r@ == Term::MatchBool {
                    cond: Box::new(cond_term@),
                    then_branch: Box::new(then_term@),
                    else_branch: Box::new(else_term@),
                }
            },
        surface::Expr::Let { rec, .. } => if rec {
            let_rec_outcome(before, expr, Some(expected), (r, expected), after)
        } else {
            let_outcome(before, expr, Some(expected), (r, expected), after)
        },
        surface::Expr::ListLit(_) => exists|forced: Elaborator<'core, 'text>, ty: Type<'core>|
            {
                &&& #[trigger] forced_steps(forced, ty)
                &&& value_or_reported(
                    before,
                    forced,
                    expr.range,
                    force_spec(
                        elab_opts(),
                        before.meta_env.values@,
                        expected,
                        before.fuel as nat,
                    ),
                    ty,
                )
                &&& match item_type_of(ty) {
                    Some(item_ty) => exists|list_ty: Type<'core>| #[trigger]
                        list_typed(list_ty) && list_outcome(
                            forced,
                            expr,
                            Some(item_ty),
                            (r, list_ty),
                            after,
                        ),
                    None => exists|found: Elaborator<'core, 'text>, list: (Expr<'core>, Type<'core>)|
                        {
                            &&& #[trigger] listed_steps(found, list)
                            &&& list_outcome(forced, expr, None, list, found)
                            &&& converted(found, after, expr.range, list.0, list.1, expected, r)
                        },
                }
            },
        surface::Expr::FunLit { .. } => check_lit_outcome(
            before,
            expr,
            0,
            expected,
            before.fuel as nat,
            r,
            after,
        ),
        surface::Expr::TupleLit(_) | surface::Expr::RecordLit(_) => check_record_outcome(
            before,
            expr,
            expected,
            r,
            after,
        ),
        surface::Expr::Match { .. } => match_outcome(before, expr, expected, r, after),
        _ => exists|found: Elaborator<'core, 'text>, term: Expr<'core>, ty: Type<'core>|
            {
                &&& synth_outcome(before, expr, (term, ty), found)
                &&& #[trigger] converted(found, after, expr.range, term, ty, expected, r)
            },
    }
}

/// The text of the term `expr` as the user is to see it in the state
/// `state`, on one line: the term with the solutions of the metavariables
/// in their place, printed with the variables under the names in scope;
/// `#error` where putting the solutions in place needs more steps than the
/// elaborator allows, or leaves a variable that is not in scope.
pub open spec fn shown_text(state: Elaborator, expr: Expr) -> Seq<char> {
    match zonk_spec(
        elab_opts(),
        state.meta_env.values@,
        state.local_env.values,
        state.local_env.values.level(),
        expr,
        state.fuel as nat,
    ) {
        Some(term) => if term.scoped(state.local_env.names@.len()) {
            rendered(
                expr_layout(
                    Config { print_names: true, fun_arrows: true },
                    names_model(state.local_env.names@),
                    term,
                    Prec::Let,
                ),
                usize::MAX as nat,
            )
        } else {
            "#error"@
        },
        None => "#error"@,
    }
}

/// Marks the term that [`value_shown`] speaks of.
pub open spec fn read_as(expr: Expr) -> bool {
    true
}

/// Whether `text` is the text of the value `value` as the user is to see it
/// in the state `state`: the text, as [`shown_text`] says, of a term that
/// the value reads back as in the scope of the state; `#error` where
/// reading it back needs more steps than the elaborator allows.
pub open spec fn value_shown<'core>(
    state: Elaborator<'core, '_>,
    value: Value<'core>,
    text: Seq<char>,
) -> bool {
    match quote_spec(
        elab_opts(),
        state.meta_env.values@,
        state.local_env.names@.len() as usize,
        value,
        state.fuel as nat,
    ) {
        Some(term) => exists|expr: Expr<'core>|
            {
                &&& #[trigger] read_as(expr)
                &&& expr@ == term
                &&& text == shown_text(state, expr)
            },
        None => text == "#error"@,
    }
}

/// A value is shown alike in two states with the same scope and the same
/// solutions of the metavariables.
pub proof fn lemma_shown_alike<'core>(
    before: Elaborator<'core, '_>,
    after: Elaborator<'core, '_>,
    value: Value<'core>,
    text: Seq<char>,
)
    requires
        elab_step(before, after),
        after.meta_env.values@ == before.meta_env.values@,
        value_shown(before, value, text),
    ensures
        value_shown(after, value, text),
{
    match quote_spec(
        elab_opts(),
        before.meta_env.values@,
        before.local_env.names@.len() as usize,
        value,
        before.fuel as nat,
    ) {
        Some(term) => {
            let expr = choose|expr: Expr<'core>|
                {
                    &&& #[trigger] read_as(expr)
                    &&& expr@ == term
                    &&& text == shown_text(before, expr)
                };
            assert(read_as(expr));
            assert(shown_text(after, expr) == shown_text(before, expr));
        },
        None => {},
    }
}

/// A state reaches itself.
pub proof fn lemma_elab_step_reflexive(state: Elaborator)
    requires
        state.wf(),
    ensures
        elab_step(state, state),
{
}

/// What elaboration reaches from a state that it reached, it reaches.
pub proof fn lemma_elab_step_transitive(a: Elaborator, b: Elaborator, c: Elaborator)
    requires
        elab_step(a, b),
        elab_step(b, c),
    ensures
        elab_step(a, c),
{
    assert forall|i: int| 0 <= i < a.diagnostics@.len() implies #[trigger] c.diagnostics@[i]
        == a.diagnostics@[i] by {
        assert(b.diagnostics@[i] == a.diagnostics@[i]);
    }
    assert forall|i: int| 0 <= i < a.meta_env.sources@.len() implies
        #[trigger] c.meta_env.sources@[i]
        == a.meta_env.sources@[i] by {
        assert(b.meta_env.sources@[i] == a.meta_env.sources@[i]);
    }
    assert forall|i: int| 0 <= i < a.meta_env.types@.len() implies #[trigger] c.meta_env.types@[i]
        == a.meta_env.types@[i] by {
        assert(b.meta_env.types@[i] == a.meta_env.types@[i]);
    }
    assert forall|i: int|
        0 <= i < a.meta_env.values@.len() && a.meta_env.values@[i] is Some implies
            #[trigger] c.meta_env.values@[i]
        == a.meta_env.values@[i] by {
        assert(b.meta_env.values@[i] == a.meta_env.values@[i]);
    }
}

/// Whether `inner` is `outer` with one more variable in scope and nothing
/// else changed.
pub open spec fn entered(outer: Elaborator, inner: Elaborator) -> bool {
    &&& outer.wf()
    &&& inner.wf()
    &&& inner.bump == outer.bump
    &&& inner.text == outer.text
    &&& inner.file_id == outer.file_id
    &&& inner.fuel == outer.fuel
    &&& inner.diagnostics == outer.diagnostics
    &&& inner.meta_env == outer.meta_env
    &&& inner.local_env.names@.len() == outer.local_env.names@.len() + 1
    &&& inner.local_env.names@.drop_last() == outer.local_env.names@
    &&& inner.local_env.infos@.drop_last() == outer.local_env.infos@
    &&& inner.local_env.types@.drop_last() == outer.local_env.types@
    &&& inner.local_env.values.popped() == outer.local_env.values
    &&& inner.local_env.values is Entry
}

/// Entering a scope, elaborating in it and leaving it is elaborating in the
/// scope around it.
pub proof fn lemma_scoped_step(
    outer: Elaborator,
    inner: Elaborator,
    inner_after: Elaborator,
    outer_after: Elaborator,
)
    requires
        entered(outer, inner),
        elab_step(inner, inner_after),
        entered(outer_after, inner_after),
    ensures
        elab_step(outer, outer_after),
{
}

/// The name that a pattern binds, where the pattern is a binder, in
/// parentheses or not.
pub open spec fn binder_of<'s>(pat: Located<surface::Pat<'s>>) -> Option<Symbol<'s>>
    decreases pat,
{
    match pat.data {
        surface::Pat::Ident(name) => Some(name),
        surface::Pat::Paren(inner) => binder_of(*inner),
        _ => None,
    }
}

/// Whether a pattern looks into a value: whether it is a literal, a tuple
/// or a record pattern, in parentheses or not.
pub open spec fn destructures(pat: Located<surface::Pat>) -> bool
    decreases pat,
{
    match pat.data {
        surface::Pat::Tuple(_) | surface::Pat::RecordLit(_) | surface::Pat::Lit(_) => true,
        surface::Pat::Paren(inner) => destructures(*inner),
        _ => false,
    }
}

/// Whether `inner` is a state that elaboration can reach from `outer` by
/// bringing more variables into scope: [`elab_step`], but that `inner` may
/// have more variables in scope after those of `outer`.
pub open spec fn deepened(outer: Elaborator, inner: Elaborator) -> bool {
    &&& outer.wf()
    &&& inner.wf()
    &&& inner.bump == outer.bump
    &&& inner.text == outer.text
    &&& inner.file_id == outer.file_id
    &&& inner.fuel == outer.fuel
    &&& extends(outer.local_env.names@, inner.local_env.names@)
    &&& extends(outer.local_env.infos@, inner.local_env.infos@)
    &&& extends(outer.local_env.types@, inner.local_env.types@)
    &&& extends(outer.diagnostics@, inner.diagnostics@)
    &&& extends(outer.meta_env.sources@, inner.meta_env.sources@)
    &&& extends(outer.meta_env.types@, inner.meta_env.types@)
    &&& outer.meta_env.values@.len() <= inner.meta_env.values@.len()
    &&& forall|i: int|
        0 <= i < outer.meta_env.values@.len() && outer.meta_env.values@[i] is Some
            ==> #[trigger] inner.meta_env.values@[i] == outer.meta_env.values@[i]
}

/// Whether `restored` is `deep` with only its first `len` variables in
/// scope, of the values `values`.
pub open spec fn restored(deep: Elaborator, restored: Elaborator, len: nat, values: crate::semantics::ValueEnv) -> bool {
    &&& restored.wf()
    &&& restored.bump == deep.bump
    &&& restored.text == deep.text
    &&& restored.file_id == deep.file_id
    &&& restored.fuel == deep.fuel
    &&& restored.diagnostics == deep.diagnostics
    &&& restored.meta_env == deep.meta_env
    &&& len <= deep.local_env.names@.len()
    &&& restored.local_env.names@ == deep.local_env.names@.take(len as int)
    &&& restored.local_env.infos@ == deep.local_env.infos@.take(len as int)
    &&& restored.local_env.types@ == deep.local_env.types@.take(len as int)
    &&& restored.local_env.values == values
}

/// Bringing variables into scope, elaborating in that scope and going back to
/// the scope before is elaborating in the scope before.
pub proof fn lemma_deep_step(
    outer: Elaborator,
    deep: Elaborator,
    deep_after: Elaborator,
    back: Elaborator,
)
    requires
        deepened(outer, deep),
        elab_step(deep, deep_after),
        restored(deep_after, back, outer.local_env.names@.len(), outer.local_env.values),
    ensures
        elab_step(outer, back),
{
    assert(back.local_env.names@ =~= outer.local_env.names@);
    assert(back.local_env.infos@ =~= outer.local_env.infos@);
    assert(back.local_env.types@ =~= outer.local_env.types@);
    assert forall|i: int| 0 <= i < outer.diagnostics@.len() implies #[trigger] back.diagnostics@[i]
        == outer.diagnostics@[i] by {
        assert(deep.diagnostics@[i] == outer.diagnostics@[i]);
    }
    assert forall|i: int| 0 <= i < outer.meta_env.sources@.len() implies
        #[trigger] back.meta_env.sources@[i]
        == outer.meta_env.sources@[i] by {
        assert(deep.meta_env.sources@[i] == outer.meta_env.sources@[i]);
    }
    assert forall|i: int| 0 <= i < outer.meta_env.types@.len() implies
        #[trigger] back.meta_env.types@[i]
        == outer.meta_env.types@[i] by {
        assert(deep.meta_env.types@[i] == outer.meta_env.types@[i]);
    }
    assert forall|i: int|
        0 <= i < outer.meta_env.values@.len() && outer.meta_env.values@[i] is Some implies
            #[trigger] back.meta_env.values@[i]
        == outer.meta_env.values@[i] by {
        assert(deep.meta_env.values@[i] == outer.meta_env.values@[i]);
    }
}

/// A binding of a pattern: the name, the type and the initialiser of a
/// variable.
pub type Binding<'core> = (Option<Symbol<'core>>, Expr<'core>, Expr<'core>);

/// Deepening a deepened scope deepens the scope.
pub proof fn lemma_deepen_deepened(outer: Elaborator, mid: Elaborator, inner: Elaborator)
    requires
        deepened(outer, mid),
        deepened(mid, inner),
    ensures
        deepened(outer, inner),
{
    assert forall|i: int| 0 <= i < outer.local_env.names@.len() implies
        #[trigger] inner.local_env.names@[i]
        == outer.local_env.names@[i] by {
        assert(mid.local_env.names@[i] == outer.local_env.names@[i]);
    }
    assert forall|i: int| 0 <= i < outer.local_env.infos@.len() implies
        #[trigger] inner.local_env.infos@[i]
        == outer.local_env.infos@[i] by {
        assert(mid.local_env.infos@[i] == outer.local_env.infos@[i]);
    }
    assert forall|i: int| 0 <= i < outer.local_env.types@.len() implies
        #[trigger] inner.local_env.types@[i]
        == outer.local_env.types@[i] by {
        assert(mid.local_env.types@[i] == outer.local_env.types@[i]);
    }
    assert forall|i: int| 0 <= i < outer.diagnostics@.len() implies #[trigger] inner.diagnostics@[i]
        == outer.diagnostics@[i] by {
        assert(mid.diagnostics@[i] == outer.diagnostics@[i]);
    }
    assert forall|i: int| 0 <= i < outer.meta_env.sources@.len() implies
        #[trigger] inner.meta_env.sources@[i]
        == outer.meta_env.sources@[i] by {
        assert(mid.meta_env.sources@[i] == outer.meta_env.sources@[i]);
    }
    assert forall|i: int| 0 <= i < outer.meta_env.types@.len() implies
        #[trigger] inner.meta_env.types@[i]
        == outer.meta_env.types@[i] by {
        assert(mid.meta_env.types@[i] == outer.meta_env.types@[i]);
    }
    assert forall|i: int|
        0 <= i < outer.meta_env.values@.len() && outer.meta_env.values@[i] is Some implies
            #[trigger] inner.meta_env.values@[i]
        == outer.meta_env.values@[i] by {
        assert(mid.meta_env.values@[i] == outer.meta_env.values@[i]);
    }
}

/// Elaborating and then entering a scope deepens the scope.
pub proof fn lemma_deepen_entered(outer: Elaborator, cur: Elaborator, next: Elaborator, inner: Elaborator)
    requires
        deepened(outer, cur),
        elab_step(cur, next),
        entered(next, inner),
    ensures
        deepened(outer, inner),
{
    assert forall|i: int| 0 <= i < outer.local_env.names@.len() implies
        #[trigger] inner.local_env.names@[i]
        == outer.local_env.names@[i] by {
        assert(inner.local_env.names@.drop_last()[i] == inner.local_env.names@[i]);
        assert(cur.local_env.names@[i] == outer.local_env.names@[i]);
    }
    assert forall|i: int| 0 <= i < outer.local_env.infos@.len() implies
        #[trigger] inner.local_env.infos@[i]
        == outer.local_env.infos@[i] by {
        assert(inner.local_env.infos@.drop_last()[i] == inner.local_env.infos@[i]);
        assert(cur.local_env.infos@[i] == outer.local_env.infos@[i]);
    }
    assert forall|i: int| 0 <= i < outer.local_env.types@.len() implies
        #[trigger] inner.local_env.types@[i]
        == outer.local_env.types@[i] by {
        assert(inner.local_env.types@.drop_last()[i] == inner.local_env.types@[i]);
        assert(cur.local_env.types@[i] == outer.local_env.types@[i]);
    }
    assert forall|i: int| 0 <= i < outer.diagnostics@.len() implies #[trigger] inner.diagnostics@[i]
        == outer.diagnostics@[i] by {
        assert(cur.diagnostics@[i] == outer.diagnostics@[i]);
        assert(next.diagnostics@[i] == cur.diagnostics@[i]);
    }
    assert forall|i: int| 0 <= i < outer.meta_env.sources@.len() implies
        #[trigger] inner.meta_env.sources@[i]
        == outer.meta_env.sources@[i] by {
        assert(cur.meta_env.sources@[i] == outer.meta_env.sources@[i]);
        assert(next.meta_env.sources@[i] == cur.meta_env.sources@[i]);
    }
    assert forall|i: int| 0 <= i < outer.meta_env.types@.len() implies
        #[trigger] inner.meta_env.types@[i]
        == outer.meta_env.types@[i] by {
        assert(cur.meta_env.types@[i] == outer.meta_env.types@[i]);
        assert(next.meta_env.types@[i] == cur.meta_env.types@[i]);
    }
    assert forall|i: int|
        0 <= i < outer.meta_env.values@.len() && outer.meta_env.values@[i] is Some implies
            #[trigger] inner.meta_env.values@[i]
        == outer.meta_env.values@[i] by {
        assert(cur.meta_env.values@[i] == outer.meta_env.values@[i]);
        assert(next.meta_env.values@[i] == cur.meta_env.values@[i]);
    }
}

/// The number of components of a tuple or of fields of a record.
pub open spec fn field_count_spec(expr: Located<surface::Expr>) -> nat {
    match expr.data {
        surface::Expr::TupleLit(elems) => elems@.len(),
        surface::Expr::RecordLit(fields) => fields@.len(),
        _ => 0,
    }
}

/// Deepening a scope after elaborating in it deepens the scope.
pub proof fn lemma_deepen_deepened_step(outer: Elaborator, cur: Elaborator, inner: Elaborator)
    requires
        outer.wf(),
        elab_step(outer, cur),
        deepened(cur, inner),
    ensures
        deepened(outer, inner),
{
    assert(extends(outer.local_env.names@, cur.local_env.names@));
    assert(extends(outer.local_env.infos@, cur.local_env.infos@));
    assert(extends(outer.local_env.types@, cur.local_env.types@));
    assert(deepened(outer, cur));
    lemma_deepen_deepened(outer, cur, inner);
}

} // verus!
