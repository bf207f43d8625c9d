//! Values: terms in weak head normal form, with the environments that their
//! unevaluated parts were found in.
//!
//! A value names a bound variable by its level, so that it can be carried
//! under more binders unchanged.

use crate::arena::arena_alloc;
use crate::env::{AbsoluteVar, RelativeVar, SharedEnv, UniqueEnv};
use crate::plicity::Plicity;
use crate::prim::Prim;
use crate::symbol::Symbol;
use crate::syntax::{Const, Expr, FunArg, FunParam};
use vstd::prelude::*;

verus! {

/// A type is a value.
pub type Type<'core> = Value<'core>;

/// The values of the variables in scope, the first bound first.
pub type ValueEnv<'core> = SharedEnv<'core, Value<'core>>;

/// The eliminations that wait for the head of a neutral value, the first
/// applied first.
pub type Spine<'core> = SharedEnv<'core, Elim<'core>>;

/// What a neutral value is blocked on.
#[derive(Debug, Copy, Clone, PartialEq, Eq, Structural)]
pub enum Head {
    LocalVar(AbsoluteVar),
    MetaVar(AbsoluteVar),
    Prim(Prim),
    Error,
}

/// A term that binds one variable, with the values of its other variables.
#[derive(Debug, Copy, Clone)]
pub struct Closure<'core> {
    pub env: ValueEnv<'core>,
    pub body: &'core Expr<'core>,
}

/// The fields of a record type from `start` on, with the values of the
/// variables in scope: those around the record type and the fields before
/// `start`.
#[derive(Debug, Copy, Clone)]
pub struct Telescope<'core> {
    pub env: ValueEnv<'core>,
    pub fields: &'core Vec<(Symbol<'core>, Expr<'core>)>,
    pub start: usize,
}

/// An elimination that waits for a head.
#[derive(Debug, Copy, Clone)]
pub enum Elim<'core> {
    FunApp(FunArg<&'core Value<'core>>),
    RecordProj(Symbol<'core>),
    MatchBool {
        env: ValueEnv<'core>,
        then_branch: &'core Expr<'core>,
        else_branch: &'core Expr<'core>,
    },
    MatchInt {
        env: ValueEnv<'core>,
        cases: &'core Vec<(u32, Expr<'core>)>,
        default: &'core Expr<'core>,
    },
}

/// A term in weak head normal form.
#[derive(Debug, Copy, Clone)]
pub enum Value<'core> {
    Lit(Const),
    Prim(Prim),
    Neutral(Head, Spine<'core>),
    FunType { param: FunParam<'core, &'core Value<'core>>, body: Closure<'core> },
    FunLit { param: FunParam<'core, &'core Value<'core>>, body: Closure<'core> },
    RecordType(Telescope<'core>),
    RecordLit(SharedEnv<'core, (Symbol<'core>, Value<'core>)>),
}

impl<'core> Value<'core> {
    /// The type of types.
    pub fn type_of_types() -> (v: Self)
        ensures
            v == Value::Prim(Prim::Type),
    {
        Value::Prim(Prim::Type)
    }

    /// The variable of level `var`, not applied to anything.
    pub fn local_var(var: AbsoluteVar) -> (v: Self)
        ensures
            v == Value::Neutral(Head::LocalVar(var), SharedEnv::Empty),
    {
        Value::Neutral(Head::LocalVar(var), SharedEnv::Empty)
    }

    /// The metavariable `var`, not applied to anything.
    pub fn meta_var(var: AbsoluteVar) -> (v: Self)
        ensures
            v == Value::Neutral(Head::MetaVar(var), SharedEnv::Empty),
    {
        Value::Neutral(Head::MetaVar(var), SharedEnv::Empty)
    }

    /// The value that stands for a term that failed to elaborate.
    pub fn error() -> (v: Self)
        ensures
            v == Value::Neutral(Head::Error, SharedEnv::Empty),
    {
        Value::Neutral(Head::Error, SharedEnv::Empty)
    }
}

/// How evaluation is to go.
#[derive(Debug, Copy, Clone, PartialEq, Eq, Structural)]
pub struct EvalOpts {
    /// Unfold `fix` where it is applied to all its arguments. Without it a
    /// recursive function stays as it is, and reading a value back ends.
    pub unfold_fix: bool,
    /// Put the value of a `let` in the place of its variable. Without it the
    /// variable stays a variable.
    pub unfold_let: bool,
}

impl Default for EvalOpts {
    fn default() -> (opts: Self)
        ensures
            opts == (EvalOpts { unfold_fix: false, unfold_let: true }),
    {
        EvalOpts { unfold_fix: false, unfold_let: true }
    }
}

/// The value that stands for a term that failed to elaborate.
pub open spec fn error_value<'core>() -> Value<'core> {
    Value::Neutral(Head::Error, SharedEnv::Empty)
}

/// The value of the variable of index `index`; the error value where the
/// environment does not bind it.
pub open spec fn local_value<'core>(env: ValueEnv<'core>, index: nat) -> Value<'core> {
    if index < env@.len() {
        env@[env@.len() - 1 - index]
    } else {
        error_value()
    }
}

/// The value of a metavariable: its solution where it has one, else
/// itself.
pub open spec fn meta_value<'core>(metas: Seq<Option<Value<'core>>>, var: AbsoluteVar) -> Value<
    'core,
> {
    if var.level < metas.len() && metas[var.level as int] is Some {
        metas[var.level as int]->0
    } else {
        Value::Neutral(Head::MetaVar(var), SharedEnv::Empty)
    }
}

/// The integer of the language that `i` is: integers are counted modulo
/// 2^32.
pub open spec fn wrap32(i: int) -> u32 {
    (i % 0x1_0000_0000) as u32
}

/// What an arithmetic or comparison primitive gives on two integers.
pub open spec fn int_prim(prim: Prim, x: u32, y: u32) -> Option<Const> {
    match prim {
        Prim::Add => Some(Const::Int(wrap32(x + y))),
        Prim::Sub => Some(Const::Int(wrap32(x - y))),
        Prim::Mul => Some(Const::Int(wrap32(x * y))),
        Prim::IntEq => Some(Const::Bool(x == y)),
        Prim::IntNe => Some(Const::Bool(x != y)),
        Prim::IntLt => Some(Const::Bool(x < y)),
        Prim::IntGt => Some(Const::Bool(x > y)),
        Prim::IntLte => Some(Const::Bool(x <= y)),
        Prim::IntGte => Some(Const::Bool(x >= y)),
        _ => None,
    }
}

/// The value of the argument at `position` of a spine, where the
/// elimination there is an application.
pub open spec fn spine_arg<'core>(spine: Spine<'core>, position: int) -> Option<Value<'core>> {
    if 0 <= position < spine@.len() {
        match spine@[position] {
            Elim::FunApp(arg) => Some(*arg.expr),
            _ => None,
        }
    } else {
        None
    }
}

/// The integer that the argument at `position` of a spine is, where it is a
/// literal integer.
pub open spec fn spine_int(spine: Spine, position: int) -> Option<u32> {
    match spine_arg(spine, position) {
        Some(Value::Lit(Const::Int(x))) => Some(x),
        _ => None,
    }
}

/// The right-hand side that a match on integers takes for `key`: that of the
/// first case with that key, or the default.
pub open spec fn case_for<'core>(
    cases: Seq<(u32, Expr<'core>)>,
    default: Expr<'core>,
    key: u32,
    from: nat,
) -> Expr<'core>
    decreases cases.len() - from,
{
    if from >= cases.len() {
        default
    } else if cases[from as int].0 == key {
        cases[from as int].1
    } else {
        case_for(cases, default, key, from + 1)
    }
}

/// The value of the field `label` of a record; the error value where it has
/// no such field.
pub open spec fn field_value<'core>(
    fields: SharedEnv<'core, (Symbol<'core>, Value<'core>)>,
    label: Seq<char>,
) -> Value<'core>
    decreases fields,
{
    match fields {
        SharedEnv::Empty => error_value(),
        SharedEnv::Entry(entry) => if entry.top.0@ == label {
            entry.top.1
        } else {
            field_value(entry.rest, label)
        },
    }
}

/// The projection of `label` from a value.
pub open spec fn project_spec<'core>(scrut: Value<'core>, label: Symbol<'core>) -> Value<'core> {
    match scrut {
        Value::RecordLit(fields) => field_value(fields, label@),
        Value::Neutral(Head::Error, _) => error_value(),
        Value::Neutral(head, spine) => Value::Neutral(head, spine.pushed(Elim::RecordProj(label))),
        _ => error_value(),
    }
}

/// The value of a term in an environment, `None` where the evaluation
/// needs more than `fuel` nested steps.
pub open spec fn eval_spec<'core>(
    opts: EvalOpts,
    metas: Seq<Option<Value<'core>>>,
    env: ValueEnv<'core>,
    e: Expr<'core>,
    fuel: nat,
) -> Option<Value<'core>>
    decreases fuel, 0nat,
{
    if fuel == 0 {
        None
    } else {
        let fuel = (fuel - 1) as nat;
        match e {
            Expr::Error => Some(error_value()),
            Expr::Lit(lit) => Some(Value::Lit(lit)),
            Expr::Prim(prim) => Some(Value::Prim(prim)),
            Expr::LocalVar(var) => Some(local_value(env, var.index as nat)),
            Expr::MetaVar(var) => Some(meta_value(metas, var)),
            Expr::Let { init, body, .. } => {
                if opts.unfold_let {
                    match eval_spec(opts, metas, env, *init, fuel) {
                        Some(value) => eval_spec(opts, metas, env.pushed(value), *body, fuel),
                        None => None,
                    }
                } else {
                    eval_spec(
                        opts,
                        metas,
                        env.pushed(
                            Value::Neutral(
                                Head::LocalVar(AbsoluteVar { level: env.level() }),
                                SharedEnv::Empty,
                            ),
                        ),
                        *body,
                        fuel,
                    )
                }
            },
            Expr::FunType { param, body } => match eval_spec(opts, metas, env, *param.ty, fuel) {
                Some(ty) => Some(
                    Value::FunType {
                        param: FunParam { plicity: param.plicity, name: param.name, ty: &ty },
                        body: Closure { env, body },
                    },
                ),
                None => None,
            },
            Expr::FunLit { param, body } => match eval_spec(opts, metas, env, *param.ty, fuel) {
                Some(ty) => Some(
                    Value::FunLit {
                        param: FunParam { plicity: param.plicity, name: param.name, ty: &ty },
                        body: Closure { env, body },
                    },
                ),
                None => None,
            },
            Expr::FunApp { fun, arg } => match eval_spec(opts, metas, env, *fun, fuel) {
                Some(fun) => match eval_spec(opts, metas, env, *arg.expr, fuel) {
                    Some(value) => apply_spec(
                        opts,
                        metas,
                        fun,
                        FunArg { plicity: arg.plicity, expr: &value },
                        fuel,
                    ),
                    None => None,
                },
                None => None,
            },
            Expr::RecordType(fields) => Some(Value::RecordType(Telescope { env, fields, start: 0 })),
            Expr::RecordLit(fields) => match eval_fields_spec(
                opts,
                metas,
                env,
                fields@,
                0,
                SharedEnv::Empty,
                fuel,
            ) {
                Some(values) => Some(Value::RecordLit(values)),
                None => None,
            },
            Expr::RecordProj(scrut, label) => match eval_spec(opts, metas, env, *scrut, fuel) {
                Some(scrut) => Some(project_spec(scrut, label)),
                None => None,
            },
            Expr::MatchBool { cond, then_branch, else_branch } => match eval_spec(
                opts,
                metas,
                env,
                *cond,
                fuel,
            ) {
                Some(cond) => match_bool_spec(
                    opts,
                    metas,
                    cond,
                    env,
                    then_branch,
                    else_branch,
                    fuel,
                ),
                None => None,
            },
            Expr::MatchInt { scrut, cases, default } => match eval_spec(
                opts,
                metas,
                env,
                *scrut,
                fuel,
            ) {
                Some(scrut) => match_int_spec(opts, metas, scrut, env, cases, default, fuel),
                None => None,
            },
        }
    }
}

/// The values of the fields of a record from `from` on, put onto `done`,
/// the values of the fields before.
pub open spec fn eval_fields_spec<'core>(
    opts: EvalOpts,
    metas: Seq<Option<Value<'core>>>,
    env: ValueEnv<'core>,
    fields: Seq<(Symbol<'core>, Expr<'core>)>,
    from: nat,
    done: SharedEnv<'core, (Symbol<'core>, Value<'core>)>,
    fuel: nat,
) -> Option<SharedEnv<'core, (Symbol<'core>, Value<'core>)>>
    decreases fuel, fields.len() - from + 1,
{
    if from >= fields.len() {
        Some(done)
    } else {
        match eval_spec(opts, metas, env, fields[from as int].1, fuel) {
            Some(value) => eval_fields_spec(
                opts,
                metas,
                env,
                fields,
                from + 1,
                done.pushed((fields[from as int].0, value)),
                fuel,
            ),
            None => None,
        }
    }
}

/// The application of `fun` to `arg`.
pub open spec fn apply_spec<'core>(
    opts: EvalOpts,
    metas: Seq<Option<Value<'core>>>,
    fun: Value<'core>,
    arg: FunArg<&'core Value<'core>>,
    fuel: nat,
) -> Option<Value<'core>>
    decreases fuel, 0nat,
{
    if fuel == 0 {
        None
    } else {
        let fuel = (fuel - 1) as nat;
        match fun {
            Value::FunLit { body, .. } => eval_spec(
                opts,
                metas,
                body.env.pushed(*arg.expr),
                *body.body,
                fuel,
            ),
            Value::Prim(prim) => reduce_spec(
                opts,
                metas,
                prim,
                SharedEnv::Empty.pushed(Elim::FunApp(arg)),
                fuel,
            ),
            Value::Neutral(Head::Error, _) => Some(error_value()),
            Value::Neutral(Head::Prim(prim), spine) => reduce_spec(
                opts,
                metas,
                prim,
                spine.pushed(Elim::FunApp(arg)),
                fuel,
            ),
            Value::Neutral(head, spine) => Some(
                Value::Neutral(head, spine.pushed(Elim::FunApp(arg))),
            ),
            _ => Some(error_value()),
        }
    }
}

/// Whether every elimination of a spine is an application.
pub open spec fn all_apps(spine: Seq<Elim>) -> bool {
    forall|i: int| 0 <= i < spine.len() ==> #[trigger] spine[i] is FunApp
}

/// The spine of a list literal: the type of its items, then the items, the
/// first first. `None` for a value that is no list literal.
pub open spec fn list_spine<'core>(value: Value<'core>) -> Option<Spine<'core>> {
    match value {
        Value::Neutral(Head::Prim(Prim::ListLit), spine) => if spine@.len() >= 1 && all_apps(
            spine@,
        ) {
            Some(spine)
        } else {
            None
        },
        _ => None,
    }
}

/// The spine with the eliminations `more` after it.
pub open spec fn extended<'core>(spine: Spine<'core>, more: Seq<Elim<'core>>) -> Spine<'core>
    decreases more.len(),
{
    if more.len() == 0 {
        spine
    } else {
        extended(spine, more.drop_last()).pushed(more.last())
    }
}

/// What a primitive of lists computes where its arguments are all there and
/// the lists among them are list literals: `len` the number of the items,
/// counted modulo 2^32; `push` the list with one more item at its end;
/// `append` the list of the items of the first list and then those of the
/// second. `None` where the primitive waits.
pub open spec fn list_prim<'core>(prim: Prim, spine: Spine<'core>) -> Option<Value<'core>> {
    match prim {
        Prim::Len => if spine@.len() == 2 && spine@[0] is FunApp && spine_arg(spine, 1) is Some {
            match list_spine(spine_arg(spine, 1)->0) {
                Some(list) => Some(Value::Lit(Const::Int(wrap32(list@.len() - 1)))),
                None => None,
            }
        } else {
            None
        },
        Prim::Push => if spine@.len() == 3 && spine@[0] is FunApp && spine_arg(spine, 1) is Some
            && spine@[2] is FunApp {
            match list_spine(spine_arg(spine, 1)->0) {
                Some(list) => Some(
                    Value::Neutral(Head::Prim(Prim::ListLit), list.pushed(spine@[2])),
                ),
                None => None,
            }
        } else {
            None
        },
        Prim::Append => if spine@.len() == 3 && spine@[0] is FunApp && spine_arg(spine, 1) is Some
            && spine_arg(spine, 2) is Some {
            match (list_spine(spine_arg(spine, 1)->0), list_spine(spine_arg(spine, 2)->0)) {
                (Some(first), Some(second)) => Some(
                    Value::Neutral(Head::Prim(Prim::ListLit), extended(first, second@.skip(1))),
                ),
                _ => None,
            }
        } else {
            None
        },
        _ => None,
    }
}

/// A primitive with the eliminations in `spine` waiting on it: what it
/// computes where the spine is the pattern of one of its rules, else the
/// neutral value.
pub open spec fn reduce_spec<'core>(
    opts: EvalOpts,
    metas: Seq<Option<Value<'core>>>,
    prim: Prim,
    spine: Spine<'core>,
    fuel: nat,
) -> Option<Value<'core>>
    decreases fuel, 0nat,
{
    let stuck = Some(Value::Neutral(Head::Prim(prim), spine));
    match prim {
        Prim::Add
        | Prim::Sub
        | Prim::Mul
        | Prim::IntEq
        | Prim::IntNe
        | Prim::IntLt
        | Prim::IntGt
        | Prim::IntLte
        | Prim::IntGte => {
            if spine@.len() == 2 && spine_int(spine, 0) is Some && spine_int(spine, 1) is Some {
                Some(
                    Value::Lit(
                        int_prim(prim, spine_int(spine, 0)->0, spine_int(spine, 1)->0)->0,
                    ),
                )
            } else {
                stuck
            }
        },
        Prim::BoolRec => {
            if spine@.len() == 4 && spine_arg(spine, 2) is Some && spine_arg(spine, 3) is Some {
                match spine_arg(spine, 1) {
                    Some(Value::Lit(Const::Bool(true))) => spine_arg(spine, 2),
                    Some(Value::Lit(Const::Bool(false))) => spine_arg(spine, 3),
                    _ => stuck,
                }
            } else {
                stuck
            }
        },
        Prim::Fix => {
            if opts.unfold_fix && spine@.len() == 4 && spine_arg(spine, 2) is Some && spine@[3] is FunApp
                && spine is Entry {
                if fuel == 0 {
                    None
                } else {
                    let fuel = (fuel - 1) as nat;
                    let this = Value::Neutral(Head::Prim(Prim::Fix), spine->Entry_0.rest);
                    match apply_spec(
                        opts,
                        metas,
                        spine_arg(spine, 2)->0,
                        FunArg { plicity: Plicity::Explicit, expr: &this },
                        fuel,
                    ) {
                        Some(unfolded) => apply_spec(
                            opts,
                            metas,
                            unfolded,
                            spine@[3]->FunApp_0,
                            fuel,
                        ),
                        None => None,
                    }
                }
            } else {
                stuck
            }
        },
        Prim::Len | Prim::Push | Prim::Append => match list_prim(prim, spine) {
            Some(value) => Some(value),
            None => stuck,
        },
        _ => stuck,
    }
}

/// The branch of a match on a boolean that the value of the condition
/// picks; the match waits where that value is neutral.
pub open spec fn match_bool_spec<'core>(
    opts: EvalOpts,
    metas: Seq<Option<Value<'core>>>,
    cond: Value<'core>,
    env: ValueEnv<'core>,
    then_branch: &'core Expr<'core>,
    else_branch: &'core Expr<'core>,
    fuel: nat,
) -> Option<Value<'core>>
    decreases fuel, 1nat,
{
    match cond {
        Value::Lit(Const::Bool(true)) => eval_spec(opts, metas, env, *then_branch, fuel),
        Value::Lit(Const::Bool(false)) => eval_spec(opts, metas, env, *else_branch, fuel),
        Value::Neutral(Head::Error, _) => Some(error_value()),
        Value::Neutral(head, spine) => Some(
            Value::Neutral(head, spine.pushed(Elim::MatchBool { env, then_branch, else_branch })),
        ),
        _ => Some(error_value()),
    }
}

/// The branch of a match on an integer that the value of the scrutinee
/// picks; the match waits where that value is neutral.
pub open spec fn match_int_spec<'core>(
    opts: EvalOpts,
    metas: Seq<Option<Value<'core>>>,
    scrut: Value<'core>,
    env: ValueEnv<'core>,
    cases: &'core Vec<(u32, Expr<'core>)>,
    default: &'core Expr<'core>,
    fuel: nat,
) -> Option<Value<'core>>
    decreases fuel, 1nat,
{
    match scrut {
        Value::Lit(Const::Int(key)) => eval_spec(
            opts,
            metas,
            env,
            case_for(cases@, *default, key, 0),
            fuel,
        ),
        Value::Neutral(Head::Error, _) => Some(error_value()),
        Value::Neutral(head, spine) => Some(
            Value::Neutral(head, spine.pushed(Elim::MatchInt { env, cases, default })),
        ),
        _ => Some(error_value()),
    }
}

/// One elimination of a value.
pub open spec fn apply_elim_spec<'core>(
    opts: EvalOpts,
    metas: Seq<Option<Value<'core>>>,
    value: Value<'core>,
    elim: Elim<'core>,
    fuel: nat,
) -> Option<Value<'core>>
    decreases fuel, 2nat,
{
    match elim {
        Elim::FunApp(arg) => apply_spec(opts, metas, value, arg, fuel),
        Elim::RecordProj(label) => Some(project_spec(value, label)),
        Elim::MatchBool { env, then_branch, else_branch } => match_bool_spec(
            opts,
            metas,
            value,
            env,
            then_branch,
            else_branch,
            fuel,
        ),
        Elim::MatchInt { env, cases, default } => match_int_spec(
            opts,
            metas,
            value,
            env,
            cases,
            default,
            fuel,
        ),
    }
}

/// The eliminations of a spine, applied to a value one after the other.
pub open spec fn apply_spine_spec<'core>(
    opts: EvalOpts,
    metas: Seq<Option<Value<'core>>>,
    value: Value<'core>,
    spine: Spine<'core>,
    fuel: nat,
) -> Option<Value<'core>>
    decreases spine,
{
    match spine {
        SharedEnv::Empty => Some(value),
        SharedEnv::Entry(entry) => match apply_spine_spec(opts, metas, value, entry.rest, fuel) {
            Some(inner) => apply_elim_spec(opts, metas, inner, entry.top, fuel),
            None => None,
        },
    }
}

/// The value with the solution of the metavariable at its head in its
/// place, and so on until the head is no solved metavariable.
pub open spec fn force_spec<'core>(
    opts: EvalOpts,
    metas: Seq<Option<Value<'core>>>,
    value: Value<'core>,
    fuel: nat,
) -> Option<Value<'core>>
    decreases fuel,
{
    match value {
        Value::Neutral(Head::MetaVar(var), spine) => if var.level < metas.len()
            && metas[var.level as int] is Some {
            if fuel == 0 {
                None
            } else {
                match apply_spine_spec(
                    opts,
                    metas,
                    metas[var.level as int]->0,
                    spine,
                    (fuel - 1) as nat,
                ) {
                    Some(unfolded) => force_spec(opts, metas, unfolded, (fuel - 1) as nat),
                    None => None,
                }
            }
        } else {
            Some(value)
        },
        _ => Some(value),
    }
}

/// What eliminations need to go on: the arena, the options, and the
/// solutions of the metavariables.
#[derive(Debug, Copy, Clone)]
pub struct ElimEnv<'core, 'env> {
    pub bump: &'core bumpalo::Bump,
    pub opts: EvalOpts,
    pub meta_values: &'env UniqueEnv<Option<Value<'core>>>,
}

impl<'core, 'env> ElimEnv<'core, 'env> {
    pub fn new(
        bump: &'core bumpalo::Bump,
        opts: EvalOpts,
        meta_values: &'env UniqueEnv<Option<Value<'core>>>,
    ) -> (env: Self)
        ensures
            env.bump == bump,
            env.opts == opts,
            env.meta_values == meta_values,
    {
        ElimEnv { bump, opts, meta_values }
    }

    /// The value of `expr` in the environment `env`; `None` where the
    /// evaluation needs more than `fuel` nested steps.
    #[verifier::loop_isolation(false)]
    pub fn eval(&self, env: ValueEnv<'core>, expr: &Expr<'core>, fuel: usize) -> (r: Option<
        Value<'core>,
    >)
        ensures
            r == eval_spec(self.opts, self.meta_values@, env, *expr, fuel as nat),
        decreases fuel, 0nat,
    {
        if fuel == 0 {
            return None;
        }
        let fuel = fuel - 1;
        match *expr {
            Expr::Error => Some(Value::error()),
            Expr::Lit(lit) => Some(Value::Lit(lit)),
            Expr::Prim(prim) => Some(Value::Prim(prim)),
            Expr::LocalVar(var) => match env.get_relative(var) {
                Some(value) => Some(value),
                None => Some(Value::error()),
            },
            Expr::MetaVar(var) => match self.meta_values.get_absolute(var) {
                Some(Some(value)) => Some(*value),
                _ => Some(Value::meta_var(var)),
            },
            Expr::Let { init, body, .. } => {
                let value = if self.opts.unfold_let {
                    match self.eval(env, init, fuel) {
                        Some(value) => value,
                        None => {
                            return None;
                        },
                    }
                } else {
                    Value::local_var(env.len().to_absolute())
                };
                let mut inner = env;
                inner.push(self.bump, value);
                self.eval(inner, body, fuel)
            },
            Expr::FunType { param, body } => {
                let ty = match self.eval(env, param.ty, fuel) {
                    Some(ty) => ty,
                    None => {
                        return None;
                    },
                };
                let ty = arena_alloc(self.bump, ty);
                Some(
                    Value::FunType {
                        param: FunParam::new(param.plicity, param.name, ty),
                        body: Closure { env, body },
                    },
                )
            },
            Expr::FunLit { param, body } => {
                let ty = match self.eval(env, param.ty, fuel) {
                    Some(ty) => ty,
                    None => {
                        return None;
                    },
                };
                let ty = arena_alloc(self.bump, ty);
                Some(
                    Value::FunLit {
                        param: FunParam::new(param.plicity, param.name, ty),
                        body: Closure { env, body },
                    },
                )
            },
            Expr::FunApp { fun, arg } => {
                let fun = match self.eval(env, fun, fuel) {
                    Some(fun) => fun,
                    None => {
                        return None;
                    },
                };
                let value = match self.eval(env, arg.expr, fuel) {
                    Some(value) => value,
                    None => {
                        return None;
                    },
                };
                let value = arena_alloc(self.bump, value);
                self.apply(fun, FunArg::new(arg.plicity, value), fuel)
            },
            Expr::RecordType(fields) => Some(Value::RecordType(Telescope { env, fields, start: 0 })),
            Expr::RecordLit(fields) => {
                let mut done: SharedEnv<'core, (Symbol<'core>, Value<'core>)> = SharedEnv::Empty;
                let mut i: usize = 0;
                while i < fields.len()
                    invariant
                        i <= fields@.len(),
                        eval_fields_spec(
                            self.opts,
                            self.meta_values@,
                            env,
                            fields@,
                            i as nat,
                            done,
                            fuel as nat,
                        ) == eval_fields_spec(
                            self.opts,
                            self.meta_values@,
                            env,
                            fields@,
                            0,
                            SharedEnv::Empty,
                            fuel as nat,
                        ),
                    decreases fields@.len() - i,
                {
                    let value = match self.eval(env, &fields[i].1, fuel) {
                        Some(value) => value,
                        None => {
                            return None;
                        },
                    };
                    done.push(self.bump, (fields[i].0, value));
                    i += 1;
                }
                Some(Value::RecordLit(done))
            },
            Expr::RecordProj(scrut, label) => match self.eval(env, scrut, fuel) {
                Some(scrut) => Some(self.project(scrut, label)),
                None => None,
            },
            Expr::MatchBool { cond, then_branch, else_branch } => match self.eval(
                env,
                cond,
                fuel,
            ) {
                Some(cond) => self.match_bool(cond, env, then_branch, else_branch, fuel),
                None => None,
            },
            Expr::MatchInt { scrut, cases, default } => match self.eval(env, scrut, fuel) {
                Some(scrut) => self.match_int(scrut, env, cases, default, fuel),
                None => None,
            },
        }
    }

    /// The application of `fun` to `arg`.
    pub fn apply(&self, fun: Value<'core>, arg: FunArg<&'core Value<'core>>, fuel: usize) -> (r:
        Option<Value<'core>>)
        ensures
            r == apply_spec(self.opts, self.meta_values@, fun, arg, fuel as nat),
        decreases fuel, 0nat,
    {
        if fuel == 0 {
            return None;
        }
        let fuel = fuel - 1;
        match fun {
            Value::FunLit { body, .. } => {
                let mut env = body.env;
                env.push(self.bump, *arg.expr);
                self.eval(env, body.body, fuel)
            },
            Value::Prim(prim) => {
                let mut spine: Spine<'core> = SharedEnv::Empty;
                spine.push(self.bump, Elim::FunApp(arg));
                self.reduce(prim, spine, fuel)
            },
            Value::Neutral(Head::Error, _) => Some(Value::error()),
            Value::Neutral(Head::Prim(prim), spine) => {
                let mut spine = spine;
                spine.push(self.bump, Elim::FunApp(arg));
                self.reduce(prim, spine, fuel)
            },
            Value::Neutral(head, spine) => {
                let mut spine = spine;
                spine.push(self.bump, Elim::FunApp(arg));
                Some(Value::Neutral(head, spine))
            },
            _ => Some(Value::error()),
        }
    }

    /// The value of the argument at `position` of a spine of `len`
    /// eliminations.
    fn arg_at(spine: Spine<'core>, len: usize, position: usize) -> (r: Option<Value<'core>>)
        requires
            len == spine@.len(),
            position < len,
        ensures
            r == spine_arg(spine, position as int),
    {
        match spine.get_relative(RelativeVar { index: len - 1 - position }) {
            Some(Elim::FunApp(arg)) => Some(*arg.expr),
            _ => None,
        }
    }

    /// The integer at `position` of a spine of `len` eliminations.
    fn int_at(spine: Spine<'core>, len: usize, position: usize) -> (r: Option<u32>)
        requires
            len == spine@.len(),
            position < len,
        ensures
            r == spine_int(spine, position as int),
    {
        match Self::arg_at(spine, len, position) {
            Some(Value::Lit(Const::Int(x))) => Some(x),
            _ => None,
        }
    }

    /// What an arithmetic or comparison primitive gives on two integers.
    fn int_op(prim: Prim, x: u32, y: u32) -> (r: Option<Const>)
        ensures
            r == int_prim(prim, x, y),
    {
        match prim {
            Prim::Add => {
                assert(wrap32(x + y) == if x + y > u32::MAX {
                    (x + y - 0x1_0000_0000) as u32
                } else {
                    (x + y) as u32
                });
                Some(Const::Int(x.wrapping_add(y)))
            },
            Prim::Sub => {
                assert(wrap32(x - y) == if x - y < 0 {
                    (x - y + 0x1_0000_0000) as u32
                } else {
                    (x - y) as u32
                });
                Some(Const::Int(x.wrapping_sub(y)))
            },
            Prim::Mul => {
                assert(x * y >= 0) by (nonlinear_arith);
                Some(Const::Int(x.wrapping_mul(y)))
            },
            Prim::IntEq => Some(Const::Bool(x == y)),
            Prim::IntNe => Some(Const::Bool(x != y)),
            Prim::IntLt => Some(Const::Bool(x < y)),
            Prim::IntGt => Some(Const::Bool(x > y)),
            Prim::IntLte => Some(Const::Bool(x <= y)),
            Prim::IntGte => Some(Const::Bool(x >= y)),
            _ => None,
        }
    }

    /// The eliminations of a spine, the first first, where all of them are
    /// applications.
    fn apps_of(spine: Spine<'core>) -> (r: Option<Vec<Elim<'core>>>)
        ensures
            match r {
                Some(apps) => apps@ == spine@ && all_apps(spine@),
                None => !all_apps(spine@),
            },
    {
        let mut reversed: Vec<Elim<'core>> = Vec::new();
        let mut rest = spine;
        loop
            invariant
                rest@.len() + reversed@.len() == spine@.len(),
                rest@ == spine@.take(rest@.len() as int),
                forall|k: int|
                    0 <= k < reversed@.len() ==> #[trigger] reversed@[k] == spine@[spine@.len() - 1
                        - k] && reversed@[k] is FunApp,
            ensures
                reversed@.len() == spine@.len(),
                forall|k: int|
                    0 <= k < reversed@.len() ==> #[trigger] reversed@[k] == spine@[spine@.len() - 1
                        - k] && reversed@[k] is FunApp,
            decreases rest@.len(),
        {
            match rest {
                SharedEnv::Empty => {
                    break ;
                },
                SharedEnv::Entry(entry) => {
                    assert(rest@.last() == entry.top);
                    assert(entry.rest@ =~= rest@.drop_last());
                    assert(entry.top == spine@[rest@.len() - 1]);
                    match entry.top {
                        Elim::FunApp(_) => {},
                        _ => {
                            return None;
                        },
                    }
                    reversed.push(entry.top);
                    rest = entry.rest;
                    assert(rest@ =~= spine@.take(rest@.len() as int));
                },
            }
        }
        let total = reversed.len();
        let mut apps: Vec<Elim<'core>> = Vec::new();
        let mut i: usize = 0;
        while i < total
            invariant
                i <= total,
                total == reversed@.len(),
                total == spine@.len(),
                apps@.len() == i,
                forall|k: int| 0 <= k < i ==> #[trigger] apps@[k] == spine@[k],
                forall|k: int|
                    0 <= k < reversed@.len() ==> #[trigger] reversed@[k] == spine@[spine@.len() - 1
                        - k] && reversed@[k] is FunApp,
            decreases total - i,
        {
            apps.push(reversed[total - 1 - i]);
            i += 1;
        }
        assert(apps@ =~= spine@);
        assert forall|k: int| 0 <= k < spine@.len() implies #[trigger] spine@[k] is FunApp by {
            assert(reversed@[spine@.len() - 1 - k] is FunApp);
        }
        Some(apps)
    }

    /// The spine of a list literal, and its eliminations, the first first.
    fn list_of(value: Value<'core>) -> (r: Option<(Spine<'core>, Vec<Elim<'core>>)>)
        ensures
            match r {
                Some((spine, apps)) => list_spine(value) == Some(spine) && apps@ == spine@,
                None => list_spine(value) is None,
            },
    {
        match value {
            Value::Neutral(Head::Prim(Prim::ListLit), spine) => match Self::apps_of(spine) {
                Some(apps) => if apps.len() >= 1 {
                    Some((spine, apps))
                } else {
                    None
                },
                None => None,
            },
            _ => None,
        }
    }

    /// What a primitive of lists computes on a spine of `len` eliminations.
    fn list_op(&self, prim: Prim, spine: Spine<'core>, len: usize) -> (r: Option<Value<'core>>)
        requires
            len == spine.level(),
        ensures
            r == list_prim(prim, spine),
    {
        match prim {
            Prim::Len => {
                if len != 2 {
                    return None;
                }
                match spine.get_relative(RelativeVar { index: 1 }) {
                    Some(Elim::FunApp(_)) => {},
                    _ => {
                        return None;
                    },
                }
                let list = match Self::arg_at(spine, len, 1) {
                    Some(list) => list,
                    None => {
                        return None;
                    },
                };
                match Self::list_of(list) {
                    Some((_, apps)) => {
                        let count = (apps.len() - 1) as u64;
                        assert(wrap32(count as int) == (count % 0x1_0000_0000) as u32);
                        Some(Value::Lit(Const::Int((count % 0x1_0000_0000u64) as u32)))
                    },
                    None => None,
                }
            },
            Prim::Push => {
                if len != 3 {
                    return None;
                }
                match spine.get_relative(RelativeVar { index: 2 }) {
                    Some(Elim::FunApp(_)) => {},
                    _ => {
                        return None;
                    },
                }
                let list = match Self::arg_at(spine, len, 1) {
                    Some(list) => list,
                    None => {
                        return None;
                    },
                };
                let item = match spine.get_relative(RelativeVar { index: 0 }) {
                    Some(Elim::FunApp(item)) => Elim::FunApp(item),
                    _ => {
                        return None;
                    },
                };
                match Self::list_of(list) {
                    Some((items, _)) => {
                        let mut items = items;
                        items.push(self.bump, item);
                        Some(Value::Neutral(Head::Prim(Prim::ListLit), items))
                    },
                    None => None,
                }
            },
            Prim::Append => {
                if len != 3 {
                    return None;
                }
                match spine.get_relative(RelativeVar { index: 2 }) {
                    Some(Elim::FunApp(_)) => {},
                    _ => {
                        return None;
                    },
                }
                let (first, second) = match (
                    Self::arg_at(spine, len, 1),
                    Self::arg_at(spine, len, 2),
                ) {
                    (Some(first), Some(second)) => (first, second),
                    _ => {
                        return None;
                    },
                };
                let (start, more) = match (Self::list_of(first), Self::list_of(second)) {
                    (Some((start, _)), Some((_, more))) => (start, more),
                    _ => {
                        return None;
                    },
                };
                let mut items = start;
                let mut i: usize = 1;
                assert(more@.subrange(1, 1) =~= Seq::empty());
                while i < more.len()
                    invariant
                        1 <= i <= more@.len(),
                        items == extended(start, more@.subrange(1, i as int)),
                    decreases more@.len() - i,
                {
                    assert(more@.subrange(1, i + 1).drop_last() =~= more@.subrange(1, i as int));
                    items.push(self.bump, more[i]);
                    i += 1;
                }
                assert(more@.subrange(1, more@.len() as int) =~= more@.skip(1));
                Some(Value::Neutral(Head::Prim(Prim::ListLit), items))
            },
            _ => None,
        }
    }

    /// A primitive with the eliminations in `spine` waiting on it.
    fn reduce(&self, prim: Prim, spine: Spine<'core>, fuel: usize) -> (r: Option<Value<'core>>)
        ensures
            r == reduce_spec(self.opts, self.meta_values@, prim, spine, fuel as nat),
        decreases fuel, 0nat,
    {
        let stuck = Some(Value::Neutral(Head::Prim(prim), spine));
        let len = spine.len().len;
        match prim {
            Prim::Add
            | Prim::Sub
            | Prim::Mul
            | Prim::IntEq
            | Prim::IntNe
            | Prim::IntLt
            | Prim::IntGt
            | Prim::IntLte
            | Prim::IntGte => {
                if len != 2 {
                    return stuck;
                }
                match (Self::int_at(spine, len, 0), Self::int_at(spine, len, 1)) {
                    (Some(x), Some(y)) => match Self::int_op(prim, x, y) {
                        Some(lit) => Some(Value::Lit(lit)),
                        None => stuck,
                    },
                    _ => stuck,
                }
            },
            Prim::BoolRec => {
                if len != 4 {
                    return stuck;
                }
                let on_true = Self::arg_at(spine, len, 2);
                let on_false = Self::arg_at(spine, len, 3);
                if on_true.is_none() || on_false.is_none() {
                    return stuck;
                }
                match Self::arg_at(spine, len, 1) {
                    Some(Value::Lit(Const::Bool(true))) => on_true,
                    Some(Value::Lit(Const::Bool(false))) => on_false,
                    _ => stuck,
                }
            },
            Prim::Fix => {
                if !self.opts.unfold_fix || len != 4 {
                    return stuck;
                }
                let body = match Self::arg_at(spine, len, 2) {
                    Some(body) => body,
                    None => {
                        return stuck;
                    },
                };
                let (rest, arg) = match spine {
                    SharedEnv::Entry(entry) => match entry.top {
                        Elim::FunApp(arg) => {
                            assert(spine@[3] == entry.top);
                            (entry.rest, arg)
                        },
                        _ => {
                            assert(spine@[3] == entry.top);
                            return stuck;
                        },
                    },
                    SharedEnv::Empty => {
                        return stuck;
                    },
                };
                if fuel == 0 {
                    return None;
                }
                let fuel = fuel - 1;
                let this = arena_alloc(self.bump, Value::Neutral(Head::Prim(Prim::Fix), rest));
                match self.apply(body, FunArg::new(Plicity::Explicit, this), fuel) {
                    Some(unfolded) => self.apply(unfolded, arg, fuel),
                    None => None,
                }
            },
            Prim::Len | Prim::Push | Prim::Append => match self.list_op(prim, spine, len) {
                Some(value) => Some(value),
                None => stuck,
            },
            _ => stuck,
        }
    }

    /// The projection of `label` from a value.
    #[verifier::loop_isolation(false)]
    pub fn project(&self, scrut: Value<'core>, label: Symbol<'core>) -> (r: Value<'core>)
        ensures
            r == project_spec(scrut, label),
    {
        match scrut {
            Value::RecordLit(fields) => {
                let mut rest = fields;
                loop
                    invariant
                        field_value(rest, label@) == field_value(fields, label@),
                    decreases rest@.len(),
                {
                    match rest {
                        SharedEnv::Empty => {
                            return Value::error();
                        },
                        SharedEnv::Entry(entry) => {
                            if entry.top.0 == label {
                                return entry.top.1;
                            }
                            rest = entry.rest;
                        },
                    }
                }
            },
            Value::Neutral(Head::Error, _) => Value::error(),
            Value::Neutral(head, spine) => {
                let mut spine = spine;
                spine.push(self.bump, Elim::RecordProj(label));
                Value::Neutral(head, spine)
            },
            _ => Value::error(),
        }
    }

    /// The branch of a match on a boolean that `cond` picks.
    pub fn match_bool(
        &self,
        cond: Value<'core>,
        env: ValueEnv<'core>,
        then_branch: &'core Expr<'core>,
        else_branch: &'core Expr<'core>,
        fuel: usize,
    ) -> (r: Option<Value<'core>>)
        ensures
            r == match_bool_spec(
                self.opts,
                self.meta_values@,
                cond,
                env,
                then_branch,
                else_branch,
                fuel as nat,
            ),
        decreases fuel, 1nat,
    {
        match cond {
            Value::Lit(Const::Bool(true)) => self.eval(env, then_branch, fuel),
            Value::Lit(Const::Bool(false)) => self.eval(env, else_branch, fuel),
            Value::Neutral(Head::Error, _) => Some(Value::error()),
            Value::Neutral(head, spine) => {
                let mut spine = spine;
                spine.push(self.bump, Elim::MatchBool { env, then_branch, else_branch });
                Some(Value::Neutral(head, spine))
            },
            _ => Some(Value::error()),
        }
    }

    /// The branch of a match on an integer that `scrut` picks.
    #[verifier::loop_isolation(false)]
    pub fn match_int(
        &self,
        scrut: Value<'core>,
        env: ValueEnv<'core>,
        cases: &'core Vec<(u32, Expr<'core>)>,
        default: &'core Expr<'core>,
        fuel: usize,
    ) -> (r: Option<Value<'core>>)
        ensures
            r == match_int_spec(
                self.opts,
                self.meta_values@,
                scrut,
                env,
                cases,
                default,
                fuel as nat,
            ),
        decreases fuel, 1nat,
    {
        match scrut {
            Value::Lit(Const::Int(key)) => {
                let mut i: usize = 0;
                while i < cases.len()
                    invariant
                        i <= cases@.len(),
                        case_for(cases@, *default, key, i as nat) == case_for(
                            cases@,
                            *default,
                            key,
                            0,
                        ),
                    decreases cases@.len() - i,
                {
                    if cases[i].0 == key {
                        return self.eval(env, &cases[i].1, fuel);
                    }
                    i += 1;
                }
                self.eval(env, default, fuel)
            },
            Value::Neutral(Head::Error, _) => Some(Value::error()),
            Value::Neutral(head, spine) => {
                let mut spine = spine;
                spine.push(self.bump, Elim::MatchInt { env, cases, default });
                Some(Value::Neutral(head, spine))
            },
            _ => Some(Value::error()),
        }
    }

    /// One elimination of a value.
    pub fn apply_elim(&self, value: Value<'core>, elim: Elim<'core>, fuel: usize) -> (r: Option<
        Value<'core>,
    >)
        ensures
            r == apply_elim_spec(self.opts, self.meta_values@, value, elim, fuel as nat),
    {
        match elim {
            Elim::FunApp(arg) => self.apply(value, arg, fuel),
            Elim::RecordProj(label) => Some(self.project(value, label)),
            Elim::MatchBool { env, then_branch, else_branch } => self.match_bool(
                value,
                env,
                then_branch,
                else_branch,
                fuel,
            ),
            Elim::MatchInt { env, cases, default } => self.match_int(
                value,
                env,
                cases,
                default,
                fuel,
            ),
        }
    }

    /// The eliminations of a spine, applied to a value one after the other.
    pub fn apply_spine(&self, value: Value<'core>, spine: Spine<'core>, fuel: usize) -> (r:
        Option<Value<'core>>)
        ensures
            r == apply_spine_spec(self.opts, self.meta_values@, value, spine, fuel as nat),
        decreases spine,
    {
        match spine {
            SharedEnv::Empty => Some(value),
            SharedEnv::Entry(entry) => match self.apply_spine(value, entry.rest, fuel) {
                Some(inner) => self.apply_elim(inner, entry.top, fuel),
                None => None,
            },
        }
    }

    /// The value with the solution of the metavariable at its head in its
    /// place, and so on until the head is no solved metavariable.
    pub fn force(&self, value: Value<'core>, fuel: usize) -> (r: Option<Value<'core>>)
        ensures
            r == force_spec(self.opts, self.meta_values@, value, fuel as nat),
        decreases fuel,
    {
        match value {
            Value::Neutral(Head::MetaVar(var), spine) => {
                match self.meta_values.get_absolute(var) {
                    Some(Some(solution)) => {
                        if fuel == 0 {
                            return None;
                        }
                        match self.apply_spine(*solution, spine, fuel - 1) {
                            Some(unfolded) => self.force(unfolded, fuel - 1),
                            None => None,
                        }
                    },
                    _ => Some(value),
                }
            },
            _ => Some(value),
        }
    }
}

} // verus!
