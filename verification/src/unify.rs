//! Unification of values, with the pattern rule for metavariables.
//!
//! A metavariable applied to distinct variables, `?m x1 ... xk`, is made
//! equal to a value by solving it with `fun x1 ... xk => t`, where `t` is
//! the value read back with each `xi` renamed to the parameter that stands
//! for it. The renaming is partial: a variable of the value that is none of
//! the `xi` has no name in the solution, and the equation has none.

use crate::arena::arena_alloc;
use crate::env::{level_to_index, AbsoluteVar, EnvLen, RelativeVar, SharedEnv, UniqueEnv};
use crate::plicity::Plicity;
use crate::quote::{
    cases_model, fields_model, lemma_record_lit_model, lemma_record_type_model,
    quote_spec, var_value, QuoteEnv,
};
use crate::semantics::{
    apply_spine_spec, eval_spec, force_spec, Closure, Elim, ElimEnv, EvalOpts, Head, Spine,
    Telescope, Type, Value,
    ValueEnv,
};
use crate::symbol::{name_text, Symbol};
use crate::syntax::{Expr, FunArg, FunParam, Term};
use vstd::prelude::*;

verus! {

/// Why a spine is not that of a pattern.
#[derive(Debug, Copy, Clone, PartialEq, Eq, Structural)]
pub enum SpineError {
    /// A variable is applied twice.
    NonLinearSpine(AbsoluteVar),
    /// An argument is not a variable.
    NonLocalFunApp,
    /// The metavariable is projected from.
    RecordProj,
    /// The metavariable is matched on.
    Match,
}

/// Why a value cannot be the solution of a metavariable.
#[derive(Debug, Copy, Clone, PartialEq, Eq, Structural)]
pub enum RenameError {
    /// A variable of the value is not among those that the metavariable is
    /// applied to.
    EscapingLocalVar(AbsoluteVar),
    /// The metavariable occurs in the value.
    InfiniteSolution,
}

/// Why two values were not unified.
#[derive(Debug, Copy, Clone, PartialEq, Eq, Structural)]
pub enum UnifyError {
    /// The values differ.
    Mismatch,
    Spine(SpineError),
    Rename(RenameError),
    /// Deciding took more nested steps than the fuel allows, or a scope
    /// deeper than a machine word counts.
    OutOfFuel,
}

/// A renaming of the variables of one scope, the source, to those of
/// another, the target: for each level of the source, the level it has in
/// the target, if it has one.
#[derive(Debug)]
pub struct PartialRenaming {
    pub source: UniqueEnv<Option<AbsoluteVar>>,
    pub target: EnvLen,
}

/// The index in the target of the variable that has level `var` in the
/// source.
pub open spec fn renamed(source: Seq<Option<AbsoluteVar>>, target: usize, var: AbsoluteVar) -> Option<
    nat,
> {
    if var.level < source.len() && source[var.level as int] is Some {
        level_to_index(target as nat, source[var.level as int]->0.level as nat)
    } else {
        None
    }
}

impl PartialRenaming {
    /// The renaming between two empty scopes.
    pub fn new() -> (r: Self)
        ensures
            r.source@ == Seq::<Option<AbsoluteVar>>::empty(),
            r.target.len == 0,
    {
        PartialRenaming { source: UniqueEnv::new(), target: EnvLen::new() }
    }

    /// Makes this the renaming of a source of `source_len` variables, none
    /// of which is in the target, which is empty.
    pub fn init(&mut self, source_len: EnvLen)
        ensures
            final(self).source@ == Seq::new(source_len.len as nat, |i: int| None::<AbsoluteVar>),
            final(self).target.len == 0,
    {
        self.source.truncate(EnvLen::new());
        self.target = EnvLen::new();
        let mut i: usize = 0;
        assert(self.source@ =~= Seq::new(0, |i: int| None::<AbsoluteVar>));
        while i < source_len.len
            invariant
                i <= source_len.len,
                self.target.len == 0,
                self.source@ == Seq::new(i as nat, |k: int| None::<AbsoluteVar>),
            decreases source_len.len - i,
        {
            self.source.push(None);
            i += 1;
            assert(self.source@ =~= Seq::new(i as nat, |k: int| None::<AbsoluteVar>));
        }
    }

    /// The index in the target of the variable that has level `var` in the
    /// source.
    pub fn get_as_relative(&self, var: AbsoluteVar) -> (r: Option<RelativeVar>)
        ensures
            match r {
                Some(index) => renamed(self.source@, self.target.len, var) == Some(index.index as nat),
                None => renamed(self.source@, self.target.len, var) is None,
            },
    {
        match self.source.get_absolute(var) {
            Some(Some(level)) => self.target.absolute_to_relative(*level),
            _ => None,
        }
    }

    /// Whether the variable of level `var` of the source has a name in the
    /// target.
    pub fn is_bound(&self, var: AbsoluteVar) -> (r: bool)
        ensures
            r == (var.level < self.source@.len() && self.source@[var.level as int] is Some),
    {
        match self.source.get_absolute(var) {
            Some(Some(_)) => true,
            _ => false,
        }
    }

    /// Gives the variable of level `var` of the source the next level of
    /// the target.
    pub fn set_local(&mut self, var: AbsoluteVar)
        requires
            var.level < old(self).source@.len(),
            old(self).target.len < usize::MAX,
        ensures
            final(self).source@ == old(self).source@.update(
                var.level as int,
                Some(AbsoluteVar { level: old(self).target.len }),
            ),
            final(self).target.len == old(self).target.len + 1,
    {
        self.source.set_absolute(var, Some(self.target.to_absolute()));
        self.target = EnvLen { len: self.target.len + 1 };
    }

    /// Binds one more variable in both scopes: the next of the source is
    /// the next of the target.
    pub fn push_local(&mut self)
        requires
            old(self).target.len < usize::MAX,
        ensures
            final(self).source@ == old(self).source@.push(
                Some(AbsoluteVar { level: old(self).target.len }),
            ),
            final(self).target.len == old(self).target.len + 1,
    {
        self.source.push(Some(self.target.to_absolute()));
        self.target = EnvLen { len: self.target.len + 1 };
    }

    /// Undoes [`PartialRenaming::push_local`].
    pub fn pop_local(&mut self)
        requires
            old(self).source@.len() > 0,
            old(self).target.len > 0,
        ensures
            final(self).source@ == old(self).source@.drop_last(),
            final(self).target.len == old(self).target.len - 1,
    {
        self.source.pop();
        self.target = EnvLen { len: self.target.len - 1 };
    }
}

/// The head of a neutral value, renamed: a variable to its index in the
/// target, which it must have; a metavariable to itself, unless it is the
/// one being solved.
pub open spec fn rename_head(
    source: Seq<Option<AbsoluteVar>>,
    target: usize,
    meta: AbsoluteVar,
    head: Head,
) -> Result<Term, UnifyError> {
    match head {
        Head::LocalVar(var) => match renamed(source, target, var) {
            Some(index) => Ok(Term::LocalVar(index)),
            None => Err(UnifyError::Rename(RenameError::EscapingLocalVar(var))),
        },
        Head::MetaVar(var) => if var == meta {
            Err(UnifyError::Rename(RenameError::InfiniteSolution))
        } else {
            Ok(Term::MetaVar(var.level as nat))
        },
        Head::Prim(prim) => Ok(Term::Prim(prim)),
        Head::Error => Ok(Term::Error),
    }
}

/// The value read back in the target scope, every variable renamed, for the
/// solution of `meta`.
pub open spec fn rename_spec<'core>(
    opts: EvalOpts,
    metas: Seq<Option<Value<'core>>>,
    source: Seq<Option<AbsoluteVar>>,
    target: usize,
    meta: AbsoluteVar,
    value: Value<'core>,
    fuel: nat,
) -> Result<Term, UnifyError>
    decreases fuel, 0nat, 0nat,
{
    if fuel == 0 {
        Err(UnifyError::OutOfFuel)
    } else {
        let fuel = (fuel - 1) as nat;
        match force_spec(opts, metas, value, fuel) {
            None => Err(UnifyError::OutOfFuel),
            Some(Value::Lit(lit)) => Ok(Term::Lit(lit)),
            Some(Value::Prim(prim)) => Ok(Term::Prim(prim)),
            Some(Value::Neutral(head, spine)) => rename_spine_spec(
                opts,
                metas,
                source,
                target,
                meta,
                head,
                spine,
                fuel,
            ),
            Some(Value::FunType { param, body }) => match rename_spec(
                opts,
                metas,
                source,
                target,
                meta,
                *param.ty,
                fuel,
            ) {
                Ok(ty) => match rename_closure_spec(opts, metas, source, target, meta, body, fuel) {
                    Ok(body) => Ok(
                        Term::FunType {
                            plicity: param.plicity,
                            name: name_text(param.name),
                            ty: Box::new(ty),
                            body: Box::new(body),
                        },
                    ),
                    Err(error) => Err(error),
                },
                Err(error) => Err(error),
            },
            Some(Value::FunLit { param, body }) => match rename_spec(
                opts,
                metas,
                source,
                target,
                meta,
                *param.ty,
                fuel,
            ) {
                Ok(ty) => match rename_closure_spec(opts, metas, source, target, meta, body, fuel) {
                    Ok(body) => Ok(
                        Term::FunLit {
                            plicity: param.plicity,
                            name: name_text(param.name),
                            ty: Box::new(ty),
                            body: Box::new(body),
                        },
                    ),
                    Err(error) => Err(error),
                },
                Err(error) => Err(error),
            },
            Some(Value::RecordType(telescope)) => match rename_telescope_spec(
                opts,
                metas,
                source,
                target,
                meta,
                telescope.env,
                telescope.fields@,
                telescope.start as nat,
                Seq::empty(),
                fuel,
            ) {
                Ok(fields) => Ok(Term::RecordType(fields)),
                Err(error) => Err(error),
            },
            Some(Value::RecordLit(fields)) => match rename_fields_spec(
                opts,
                metas,
                source,
                target,
                meta,
                fields,
                fuel,
            ) {
                Ok(fields) => Ok(Term::RecordLit(fields)),
                Err(error) => Err(error),
            },
        }
    }
}

/// The body of a closure, renamed under its binder, which is bound in both
/// scopes.
pub open spec fn rename_closure_spec<'core>(
    opts: EvalOpts,
    metas: Seq<Option<Value<'core>>>,
    source: Seq<Option<AbsoluteVar>>,
    target: usize,
    meta: AbsoluteVar,
    closure: Closure<'core>,
    fuel: nat,
) -> Result<Term, UnifyError>
    decreases fuel, 1nat, 0nat,
{
    if target == usize::MAX || source.len() >= usize::MAX {
        Err(UnifyError::OutOfFuel)
    } else {
        match eval_spec(
            opts,
            metas,
            closure.env.pushed(var_value(source.len() as usize)),
            *closure.body,
            fuel,
        ) {
            Some(body) => rename_spec(
                opts,
                metas,
                source.push(Some(AbsoluteVar { level: target })),
                (target + 1) as usize,
                meta,
                body,
                fuel,
            ),
            None => Err(UnifyError::OutOfFuel),
        }
    }
}

/// A branch of a match that waits, renamed.
pub open spec fn rename_branch_spec<'core>(
    opts: EvalOpts,
    metas: Seq<Option<Value<'core>>>,
    source: Seq<Option<AbsoluteVar>>,
    target: usize,
    meta: AbsoluteVar,
    env: ValueEnv<'core>,
    branch: Expr<'core>,
    fuel: nat,
) -> Result<Term, UnifyError>
    decreases fuel, 1nat, 0nat,
{
    match eval_spec(opts, metas, env, branch, fuel) {
        Some(value) => rename_spec(opts, metas, source, target, meta, value, fuel),
        None => Err(UnifyError::OutOfFuel),
    }
}

/// The cases of a match that waits, from `from` on, renamed and put after
/// `done`.
pub open spec fn rename_cases_spec<'core>(
    opts: EvalOpts,
    metas: Seq<Option<Value<'core>>>,
    source: Seq<Option<AbsoluteVar>>,
    target: usize,
    meta: AbsoluteVar,
    env: ValueEnv<'core>,
    cases: Seq<(u32, Expr<'core>)>,
    from: nat,
    done: Seq<(u32, Term)>,
    fuel: nat,
) -> Result<Seq<(u32, Term)>, UnifyError>
    decreases fuel, 2nat, cases.len() - from,
{
    if from >= cases.len() {
        Ok(done)
    } else {
        match rename_branch_spec(
            opts,
            metas,
            source,
            target,
            meta,
            env,
            cases[from as int].1,
            fuel,
        ) {
            Ok(term) => rename_cases_spec(
                opts,
                metas,
                source,
                target,
                meta,
                env,
                cases,
                from + 1,
                done.push((cases[from as int].0, term)),
                fuel,
            ),
            Err(error) => Err(error),
        }
    }
}

/// A neutral value, renamed.
pub open spec fn rename_spine_spec<'core>(
    opts: EvalOpts,
    metas: Seq<Option<Value<'core>>>,
    source: Seq<Option<AbsoluteVar>>,
    target: usize,
    meta: AbsoluteVar,
    head: Head,
    spine: Spine<'core>,
    fuel: nat,
) -> Result<Term, UnifyError>
    decreases fuel, 3nat, spine@.len(),
{
    match spine {
        SharedEnv::Empty => rename_head(source, target, meta, head),
        SharedEnv::Entry(entry) => match rename_spine_spec(
            opts,
            metas,
            source,
            target,
            meta,
            head,
            entry.rest,
            fuel,
        ) {
            Ok(inner) => match entry.top {
                Elim::FunApp(arg) => match rename_spec(
                    opts,
                    metas,
                    source,
                    target,
                    meta,
                    *arg.expr,
                    fuel,
                ) {
                    Ok(arg_term) => Ok(
                        Term::FunApp {
                            fun: Box::new(inner),
                            plicity: arg.plicity,
                            arg: Box::new(arg_term),
                        },
                    ),
                    Err(error) => Err(error),
                },
                Elim::RecordProj(label) => Ok(Term::RecordProj(Box::new(inner), label@)),
                Elim::MatchBool { env, then_branch, else_branch } => match rename_branch_spec(
                    opts,
                    metas,
                    source,
                    target,
                    meta,
                    env,
                    *then_branch,
                    fuel,
                ) {
                    Ok(then_term) => match rename_branch_spec(
                        opts,
                        metas,
                        source,
                        target,
                        meta,
                        env,
                        *else_branch,
                        fuel,
                    ) {
                        Ok(else_term) => Ok(
                            Term::MatchBool {
                                cond: Box::new(inner),
                                then_branch: Box::new(then_term),
                                else_branch: Box::new(else_term),
                            },
                        ),
                        Err(error) => Err(error),
                    },
                    Err(error) => Err(error),
                },
                Elim::MatchInt { env, cases, default } => match rename_cases_spec(
                    opts,
                    metas,
                    source,
                    target,
                    meta,
                    env,
                    cases@,
                    0,
                    Seq::empty(),
                    fuel,
                ) {
                    Ok(case_terms) => match rename_branch_spec(
                        opts,
                        metas,
                        source,
                        target,
                        meta,
                        env,
                        *default,
                        fuel,
                    ) {
                        Ok(default_term) => Ok(
                            Term::MatchInt {
                                scrut: Box::new(inner),
                                cases: case_terms,
                                default: Box::new(default_term),
                            },
                        ),
                        Err(error) => Err(error),
                    },
                    Err(error) => Err(error),
                },
            },
            Err(error) => Err(error),
        },
    }
}

/// The fields of a record, renamed, the first first.
pub open spec fn rename_fields_spec<'core>(
    opts: EvalOpts,
    metas: Seq<Option<Value<'core>>>,
    source: Seq<Option<AbsoluteVar>>,
    target: usize,
    meta: AbsoluteVar,
    fields: SharedEnv<'core, (Symbol<'core>, Value<'core>)>,
    fuel: nat,
) -> Result<Seq<(Seq<char>, Term)>, UnifyError>
    decreases fuel, 3nat, fields@.len(),
{
    match fields {
        SharedEnv::Empty => Ok(Seq::empty()),
        SharedEnv::Entry(entry) => match rename_fields_spec(
            opts,
            metas,
            source,
            target,
            meta,
            entry.rest,
            fuel,
        ) {
            Ok(before) => match rename_spec(
                opts,
                metas,
                source,
                target,
                meta,
                entry.top.1,
                fuel,
            ) {
                Ok(term) => Ok(before.push((entry.top.0@, term))),
                Err(error) => Err(error),
            },
            Err(error) => Err(error),
        },
    }
}

/// The fields of a telescope from `from` on, renamed and put after `done`.
pub open spec fn rename_telescope_spec<'core>(
    opts: EvalOpts,
    metas: Seq<Option<Value<'core>>>,
    source: Seq<Option<AbsoluteVar>>,
    target: usize,
    meta: AbsoluteVar,
    env: ValueEnv<'core>,
    fields: Seq<(Symbol<'core>, Expr<'core>)>,
    from: nat,
    done: Seq<(Seq<char>, Term)>,
    fuel: nat,
) -> Result<Seq<(Seq<char>, Term)>, UnifyError>
    decreases fuel, 3nat, fields.len() - from,
{
    if from >= fields.len() {
        Ok(done)
    } else if target == usize::MAX || source.len() >= usize::MAX {
        Err(UnifyError::OutOfFuel)
    } else {
        let field = fields[from as int];
        match eval_spec(opts, metas, env, field.1, fuel) {
            Some(ty) => match rename_spec(opts, metas, source, target, meta, ty, fuel) {
                Ok(term) => rename_telescope_spec(
                    opts,
                    metas,
                    source.push(Some(AbsoluteVar { level: target })),
                    (target + 1) as usize,
                    meta,
                    env.pushed(var_value(source.len() as usize)),
                    fields,
                    from + 1,
                    done.push((field.0@, term)),
                    fuel,
                ),
                Err(error) => Err(error),
            },
            None => Err(UnifyError::OutOfFuel),
        }
    }
}

/// Whether the outcome `r` is the outcome `t`: the same error, or a term of
/// that model.
pub open spec fn is_renamed(r: Result<Expr, UnifyError>, t: Result<Term, UnifyError>) -> bool {
    match (r, t) {
        (Ok(e), Ok(t)) => e@ == t,
        (Err(a), Err(b)) => a == b,
        _ => false,
    }
}

/// Renames values for the solution of the metavariable `meta`.
#[derive(Debug, Copy, Clone)]
pub struct RenameEnv<'core, 'env> {
    pub elim_env: ElimEnv<'core, 'env>,
    pub meta: AbsoluteVar,
}

impl<'core, 'env> RenameEnv<'core, 'env> {
    /// The value read back in the target scope of `renaming`.
    pub fn rename(&self, renaming: &mut PartialRenaming, value: &Value<'core>, fuel: usize) -> (r:
        Result<Expr<'core>, UnifyError>)
        ensures
            final(renaming).source@ == old(renaming).source@,
            final(renaming).target == old(renaming).target,
            is_renamed(
                r,
                rename_spec(
                    self.elim_env.opts,
                    self.elim_env.meta_values@,
                    old(renaming).source@,
                    old(renaming).target.len,
                    self.meta,
                    *value,
                    fuel as nat,
                ),
            ),
        decreases fuel, 0nat, 0nat,
    {
        if fuel == 0 {
            return Err(UnifyError::OutOfFuel);
        }
        let fuel = fuel - 1;
        let bump = self.elim_env.bump;
        let value = match self.elim_env.force(*value, fuel) {
            Some(value) => value,
            None => {
                return Err(UnifyError::OutOfFuel);
            },
        };
        match value {
            Value::Lit(lit) => Ok(Expr::Lit(lit)),
            Value::Prim(prim) => Ok(Expr::Prim(prim)),
            Value::Neutral(head, spine) => self.rename_spine(renaming, head, spine, fuel),
            Value::FunType { param, body } => {
                let ty = match self.rename(renaming, param.ty, fuel) {
                    Ok(ty) => ty,
                    Err(error) => {
                        return Err(error);
                    },
                };
                let body = match self.rename_closure(renaming, &body, fuel) {
                    Ok(body) => body,
                    Err(error) => {
                        return Err(error);
                    },
                };
                let ty = arena_alloc(bump, ty);
                Ok(
                    Expr::FunType {
                        param: FunParam::new(param.plicity, param.name, ty),
                        body: arena_alloc(bump, body),
                    },
                )
            },
            Value::FunLit { param, body } => {
                let ty = match self.rename(renaming, param.ty, fuel) {
                    Ok(ty) => ty,
                    Err(error) => {
                        return Err(error);
                    },
                };
                let body = match self.rename_closure(renaming, &body, fuel) {
                    Ok(body) => body,
                    Err(error) => {
                        return Err(error);
                    },
                };
                let ty = arena_alloc(bump, ty);
                Ok(
                    Expr::FunLit {
                        param: FunParam::new(param.plicity, param.name, ty),
                        body: arena_alloc(bump, body),
                    },
                )
            },
            Value::RecordType(telescope) => self.rename_telescope(renaming, &telescope, fuel),
            Value::RecordLit(fields) => {
                let mut out: Vec<(Symbol<'core>, Expr<'core>)> = Vec::new();
                match self.rename_fields(renaming, fields, &mut out, fuel) {
                    Ok(()) => {
                        let fields = arena_alloc(bump, out);
                        proof {
                            lemma_record_lit_model(fields);
                            assert(fields_model(Seq::empty()) + fields_model(fields@)
                                =~= fields_model(fields@));
                        }
                        Ok(Expr::RecordLit(fields))
                    },
                    Err(error) => Err(error),
                }
            },
        }
    }

    /// The body of a closure, renamed under its binder.
    fn rename_closure(
        &self,
        renaming: &mut PartialRenaming,
        closure: &Closure<'core>,
        fuel: usize,
    ) -> (r: Result<Expr<'core>, UnifyError>)
        ensures
            final(renaming).source@ == old(renaming).source@,
            final(renaming).target == old(renaming).target,
            is_renamed(
                r,
                rename_closure_spec(
                    self.elim_env.opts,
                    self.elim_env.meta_values@,
                    old(renaming).source@,
                    old(renaming).target.len,
                    self.meta,
                    *closure,
                    fuel as nat,
                ),
            ),
        decreases fuel, 1nat, 0nat,
    {
        let source_len = renaming.source.len().len;
        if renaming.target.len == usize::MAX || source_len == usize::MAX {
            return Err(UnifyError::OutOfFuel);
        }
        let ghost source0 = renaming.source@;
        let mut env = closure.env;
        env.push(self.elim_env.bump, Value::local_var(AbsoluteVar { level: source_len }));
        let body = match self.elim_env.eval(env, closure.body, fuel) {
            Some(body) => body,
            None => {
                return Err(UnifyError::OutOfFuel);
            },
        };
        renaming.push_local();
        let r = self.rename(renaming, &body, fuel);
        renaming.pop_local();
        assert(renaming.source@ =~= source0);
        r
    }

    /// The head of a neutral value, renamed.
    fn rename_head(&self, renaming: &PartialRenaming, head: Head) -> (r: Result<
        Expr<'core>,
        UnifyError,
    >)
        ensures
            is_renamed(r, rename_head(renaming.source@, renaming.target.len, self.meta, head)),
    {
        match head {
            Head::LocalVar(var) => match renaming.get_as_relative(var) {
                Some(index) => Ok(Expr::LocalVar(index)),
                None => Err(UnifyError::Rename(RenameError::EscapingLocalVar(var))),
            },
            Head::MetaVar(var) => if var.level == self.meta.level {
                Err(UnifyError::Rename(RenameError::InfiniteSolution))
            } else {
                Ok(Expr::MetaVar(var))
            },
            Head::Prim(prim) => Ok(Expr::Prim(prim)),
            Head::Error => Ok(Expr::Error),
        }
    }

    /// A neutral value, renamed.
    fn rename_spine(
        &self,
        renaming: &mut PartialRenaming,
        head: Head,
        spine: Spine<'core>,
        fuel: usize,
    ) -> (r: Result<Expr<'core>, UnifyError>)
        ensures
            final(renaming).source@ == old(renaming).source@,
            final(renaming).target == old(renaming).target,
            is_renamed(
                r,
                rename_spine_spec(
                    self.elim_env.opts,
                    self.elim_env.meta_values@,
                    old(renaming).source@,
                    old(renaming).target.len,
                    self.meta,
                    head,
                    spine,
                    fuel as nat,
                ),
            ),
        decreases fuel, 3nat, spine@.len(),
    {
        let bump = self.elim_env.bump;
        let entry = match spine {
            SharedEnv::Empty => {
                return self.rename_head(renaming, head);
            },
            SharedEnv::Entry(entry) => entry,
        };
        let inner = match self.rename_spine(renaming, head, entry.rest, fuel) {
            Ok(inner) => inner,
            Err(error) => {
                return Err(error);
            },
        };
        let inner = arena_alloc(bump, inner);
        match entry.top {
            Elim::FunApp(arg) => match self.rename(renaming, arg.expr, fuel) {
                Ok(arg_expr) => {
                    let arg_expr = arena_alloc(bump, arg_expr);
                    Ok(Expr::FunApp { fun: inner, arg: FunArg::new(arg.plicity, arg_expr) })
                },
                Err(error) => Err(error),
            },
            Elim::RecordProj(label) => Ok(Expr::RecordProj(inner, label)),
            Elim::MatchBool { env, then_branch, else_branch } => {
                let then_expr = match self.rename_branch(renaming, env, then_branch, fuel) {
                    Ok(expr) => expr,
                    Err(error) => {
                        return Err(error);
                    },
                };
                let else_expr = match self.rename_branch(renaming, env, else_branch, fuel) {
                    Ok(expr) => expr,
                    Err(error) => {
                        return Err(error);
                    },
                };
                Ok(
                    Expr::MatchBool {
                        cond: inner,
                        then_branch: arena_alloc(bump, then_expr),
                        else_branch: arena_alloc(bump, else_expr),
                    },
                )
            },
            Elim::MatchInt { env, cases, default } => {
                let case_exprs = match self.rename_cases(renaming, env, cases, fuel) {
                    Ok(cases) => cases,
                    Err(error) => {
                        return Err(error);
                    },
                };
                let default_expr = match self.rename_branch(renaming, env, default, fuel) {
                    Ok(expr) => expr,
                    Err(error) => {
                        return Err(error);
                    },
                };
                let r = Expr::MatchInt {
                    scrut: inner,
                    cases: arena_alloc(bump, case_exprs),
                    default: arena_alloc(bump, default_expr),
                };
                assert(r@->cases =~= cases_model(case_exprs@));
                Ok(r)
            },
        }
    }

    /// A branch of a match that waits, renamed.
    fn rename_branch(
        &self,
        renaming: &mut PartialRenaming,
        env: ValueEnv<'core>,
        branch: &Expr<'core>,
        fuel: usize,
    ) -> (r: Result<Expr<'core>, UnifyError>)
        ensures
            final(renaming).source@ == old(renaming).source@,
            final(renaming).target == old(renaming).target,
            is_renamed(
                r,
                rename_branch_spec(
                    self.elim_env.opts,
                    self.elim_env.meta_values@,
                    old(renaming).source@,
                    old(renaming).target.len,
                    self.meta,
                    env,
                    *branch,
                    fuel as nat,
                ),
            ),
        decreases fuel, 1nat, 0nat,
    {
        match self.elim_env.eval(env, branch, fuel) {
            Some(value) => self.rename(renaming, &value, fuel),
            None => Err(UnifyError::OutOfFuel),
        }
    }

    /// The cases of a match that waits, renamed.
    #[verifier::loop_isolation(false)]
    fn rename_cases(
        &self,
        renaming: &mut PartialRenaming,
        env: ValueEnv<'core>,
        cases: &Vec<(u32, Expr<'core>)>,
        fuel: usize,
    ) -> (r: Result<Vec<(u32, Expr<'core>)>, UnifyError>)
        ensures
            final(renaming).source@ == old(renaming).source@,
            final(renaming).target == old(renaming).target,
            match rename_cases_spec(
                self.elim_env.opts,
                self.elim_env.meta_values@,
                old(renaming).source@,
                old(renaming).target.len,
                self.meta,
                env,
                cases@,
                0,
                Seq::empty(),
                fuel as nat,
            ) {
                Ok(terms) => r is Ok && cases_model(r->Ok_0@) == terms,
                Err(error) => r == Err::<Vec<(u32, Expr<'core>)>, UnifyError>(error),
            },
        decreases fuel, 2nat, cases@.len(),
    {
        let mut done: Vec<(u32, Expr<'core>)> = Vec::new();
        let mut i: usize = 0;
        proof {
            assert(cases_model(done@) =~= Seq::empty());
        }
        while i < cases.len()
            invariant
                i <= cases@.len(),
                renaming.source@ == old(renaming).source@,
                renaming.target == old(renaming).target,
                rename_cases_spec(
                    self.elim_env.opts,
                    self.elim_env.meta_values@,
                    renaming.source@,
                    renaming.target.len,
                    self.meta,
                    env,
                    cases@,
                    i as nat,
                    cases_model(done@),
                    fuel as nat,
                ) == rename_cases_spec(
                    self.elim_env.opts,
                    self.elim_env.meta_values@,
                    renaming.source@,
                    renaming.target.len,
                    self.meta,
                    env,
                    cases@,
                    0,
                    Seq::empty(),
                    fuel as nat,
                ),
            decreases cases@.len() - i,
        {
            let ghost before = cases_model(done@);
            match self.rename_branch(renaming, env, &cases[i].1, fuel) {
                Ok(expr) => {
                    done.push((cases[i].0, expr));
                    assert(cases_model(done@) =~= before.push((cases@[i as int].0, expr@)));
                },
                Err(error) => {
                    return Err(error);
                },
            }
            i += 1;
        }
        Ok(done)
    }

    /// The fields of a record, renamed onto `out`.
    fn rename_fields(
        &self,
        renaming: &mut PartialRenaming,
        fields: SharedEnv<'core, (Symbol<'core>, Value<'core>)>,
        out: &mut Vec<(Symbol<'core>, Expr<'core>)>,
        fuel: usize,
    ) -> (r: Result<(), UnifyError>)
        ensures
            final(renaming).source@ == old(renaming).source@,
            final(renaming).target == old(renaming).target,
            match rename_fields_spec(
                self.elim_env.opts,
                self.elim_env.meta_values@,
                old(renaming).source@,
                old(renaming).target.len,
                self.meta,
                fields,
                fuel as nat,
            ) {
                Ok(terms) => r is Ok && fields_model(final(out)@) == fields_model(old(out)@) + terms,
                Err(error) => r == Err::<(), UnifyError>(error),
            },
        decreases fuel, 3nat, fields@.len(),
    {
        let ghost out0 = out@;
        match fields {
            SharedEnv::Empty => {
                assert(fields_model(out@) =~= fields_model(out0) + Seq::empty());
                Ok(())
            },
            SharedEnv::Entry(entry) => {
                match self.rename_fields(renaming, entry.rest, out, fuel) {
                    Ok(()) => {},
                    Err(error) => {
                        return Err(error);
                    },
                }
                let ghost out1 = out@;
                match self.rename(renaming, &entry.top.1, fuel) {
                    Ok(expr) => {
                        out.push((entry.top.0, expr));
                        assert(fields_model(out@) =~= fields_model(out1).push(
                            (entry.top.0@, expr@),
                        ));
                        assert(fields_model(out@) =~= fields_model(out0) + rename_fields_spec(
                            self.elim_env.opts,
                            self.elim_env.meta_values@,
                            renaming.source@,
                            renaming.target.len,
                            self.meta,
                            fields,
                            fuel as nat,
                        )->Ok_0);
                        Ok(())
                    },
                    Err(error) => Err(error),
                }
            },
        }
    }

    /// A telescope, renamed as a record type.
    #[verifier::loop_isolation(false)]
    fn rename_telescope(
        &self,
        renaming: &mut PartialRenaming,
        telescope: &Telescope<'core>,
        fuel: usize,
    ) -> (r: Result<Expr<'core>, UnifyError>)
        ensures
            final(renaming).source@ == old(renaming).source@,
            final(renaming).target == old(renaming).target,
            match rename_telescope_spec(
                self.elim_env.opts,
                self.elim_env.meta_values@,
                old(renaming).source@,
                old(renaming).target.len,
                self.meta,
                telescope.env,
                telescope.fields@,
                telescope.start as nat,
                Seq::empty(),
                fuel as nat,
            ) {
                Ok(terms) => r is Ok && r->Ok_0@ == Term::RecordType(terms),
                Err(error) => r == Err::<Expr<'core>, UnifyError>(error),
            },
        decreases fuel, 3nat, telescope.fields@.len(),
    {
        let fields = telescope.fields;
        let ghost source0 = renaming.source@;
        let source_len0 = renaming.source.len();
        let target0 = renaming.target;
        let mut done: Vec<(Symbol<'core>, Expr<'core>)> = Vec::new();
        let mut env = telescope.env;
        let mut i = telescope.start;
        let mut failed: Option<UnifyError> = None;
        proof {
            assert(fields_model(done@) =~= Seq::empty());
        }
        while failed.is_none() && i < fields.len()
            invariant
                renaming.source@.len() >= source0.len(),
                renaming.source@.take(source0.len() as int) == source0,
                renaming.target.len >= target0.len,
                source_len0.len == source0.len(),
                failed is None ==> rename_telescope_spec(
                    self.elim_env.opts,
                    self.elim_env.meta_values@,
                    renaming.source@,
                    renaming.target.len,
                    self.meta,
                    env,
                    fields@,
                    i as nat,
                    fields_model(done@),
                    fuel as nat,
                ) == rename_telescope_spec(
                    self.elim_env.opts,
                    self.elim_env.meta_values@,
                    source0,
                    target0.len,
                    self.meta,
                    telescope.env,
                    telescope.fields@,
                    telescope.start as nat,
                    Seq::empty(),
                    fuel as nat,
                ),
                failed is Some ==> rename_telescope_spec(
                    self.elim_env.opts,
                    self.elim_env.meta_values@,
                    source0,
                    target0.len,
                    self.meta,
                    telescope.env,
                    telescope.fields@,
                    telescope.start as nat,
                    Seq::empty(),
                    fuel as nat,
                ) == Err::<Seq<(Seq<char>, Term)>, UnifyError>(failed->0),
            decreases fields@.len() - i + (if failed is None {
                1nat
            } else {
                0nat
            }),
        {
            let source_len = renaming.source.len().len;
            if renaming.target.len == usize::MAX || source_len == usize::MAX {
                failed = Some(UnifyError::OutOfFuel);
            } else {
                let ghost before = fields_model(done@);
                let ghost source1 = renaming.source@;
                match self.elim_env.eval(env, &fields[i].1, fuel) {
                    Some(ty) => match self.rename(renaming, &ty, fuel) {
                        Ok(expr) => {
                            done.push((fields[i].0, expr));
                            assert(fields_model(done@) =~= before.push(
                                (fields@[i as int].0@, expr@),
                            ));
                            env.push(
                                self.elim_env.bump,
                                Value::local_var(AbsoluteVar { level: source_len }),
                            );
                            renaming.push_local();
                            assert(renaming.source@.take(source0.len() as int) =~= source1.take(
                                source0.len() as int,
                            ));
                            i += 1;
                        },
                        Err(error) => {
                            failed = Some(error);
                        },
                    },
                    None => {
                        failed = Some(UnifyError::OutOfFuel);
                    },
                }
            }
        }
        renaming.source.truncate(source_len0);
        renaming.target = target0;
        assert(renaming.source@ =~= source0);
        match failed {
            Some(error) => Err(error),
            None => {
                let fields = arena_alloc(self.elim_env.bump, done);
                proof {
                    lemma_record_type_model(fields);
                }
                Ok(Expr::RecordType(fields))
            },
        }
    }
}

/// What the spine of a pattern gives: the renaming of its variables, the
/// number of them, and for each the plicity and the type of the parameter
/// that stands for it in the solution.
pub struct Pattern {
    pub source: Seq<Option<AbsoluteVar>>,
    pub target: usize,
    pub params: Seq<(Plicity, Term)>,
}

/// The pattern that a spine is, for the solution of `meta` where `len`
/// variables with the types `types` are in scope: every elimination must be
/// the application to a variable that no elimination before it applies to.
/// The type of a parameter is that of its variable, renamed for the
/// parameters before it; the error term where that has no renaming.
pub open spec fn pattern_spec<'core>(
    opts: EvalOpts,
    metas: Seq<Option<Value<'core>>>,
    len: usize,
    types: Seq<Value<'core>>,
    meta: AbsoluteVar,
    spine: Spine<'core>,
    fuel: nat,
) -> Result<Pattern, UnifyError>
    decreases spine,
{
    match spine {
        SharedEnv::Empty => Ok(
            Pattern {
                source: Seq::new(len as nat, |i: int| None::<AbsoluteVar>),
                target: 0,
                params: Seq::empty(),
            },
        ),
        SharedEnv::Entry(entry) => match pattern_spec(
            opts,
            metas,
            len,
            types,
            meta,
            entry.rest,
            fuel,
        ) {
            Ok(before) => match entry.top {
                Elim::FunApp(arg) => match force_spec(opts, metas, *arg.expr, fuel) {
                    Some(Value::Neutral(Head::LocalVar(var), SharedEnv::Empty)) => {
                        if var.level >= before.source.len() {
                            Err(UnifyError::Spine(SpineError::NonLocalFunApp))
                        } else if before.source[var.level as int] is Some {
                            Err(UnifyError::Spine(SpineError::NonLinearSpine(var)))
                        } else if before.target == usize::MAX {
                            Err(UnifyError::OutOfFuel)
                        } else {
                            Ok(
                                Pattern {
                                    source: before.source.update(
                                        var.level as int,
                                        Some(AbsoluteVar { level: before.target }),
                                    ),
                                    target: (before.target + 1) as usize,
                                    params: before.params.push(
                                        (
                                            arg.plicity,
                                            param_type_spec(
                                                opts,
                                                metas,
                                                before,
                                                types,
                                                meta,
                                                var,
                                                fuel,
                                            ),
                                        ),
                                    ),
                                },
                            )
                        }
                    },
                    Some(_) => Err(UnifyError::Spine(SpineError::NonLocalFunApp)),
                    None => Err(UnifyError::OutOfFuel),
                },
                Elim::RecordProj(_) => Err(UnifyError::Spine(SpineError::RecordProj)),
                Elim::MatchBool { .. } | Elim::MatchInt { .. } => Err(
                    UnifyError::Spine(SpineError::Match),
                ),
            },
            Err(error) => Err(error),
        },
    }
}

/// The type of the parameter that stands for the variable `var`.
pub open spec fn param_type_spec<'core>(
    opts: EvalOpts,
    metas: Seq<Option<Value<'core>>>,
    before: Pattern,
    types: Seq<Value<'core>>,
    meta: AbsoluteVar,
    var: AbsoluteVar,
    fuel: nat,
) -> Term {
    if var.level < types.len() {
        match rename_spec(
            opts,
            metas,
            before.source,
            before.target,
            meta,
            types[var.level as int],
            fuel,
        ) {
            Ok(ty) => ty,
            Err(_) => Term::Error,
        }
    } else {
        Term::Error
    }
}

/// `body` under one function literal for each parameter, the first
/// outermost.
pub open spec fn fun_lits(params: Seq<(Plicity, Term)>, body: Term) -> Term
    decreases params.len(),
{
    if params.len() == 0 {
        body
    } else {
        Term::FunLit {
            plicity: params[0].0,
            name: None,
            ty: Box::new(params[0].1),
            body: Box::new(fun_lits(params.drop_first(), body)),
        }
    }
}

/// Whether giving the metavariable `meta` the solution `solution`, a closed
/// term, takes the solutions from `before` to `after` with the outcome `r`.
///
/// A metavariable without a solution gets the value of the term. One that
/// has a solution keeps it: the outcome is `Ok` where the solution reads
/// back as the term but for the names of bound variables, and `Mismatch`
/// where it reads back as another term.
pub open spec fn assign_rel<'core>(
    opts: EvalOpts,
    meta: AbsoluteVar,
    solution: Term,
    fuel: nat,
    before: Seq<Option<Value<'core>>>,
    r: Result<(), UnifyError>,
    after: Seq<Option<Value<'core>>>,
) -> bool {
    if meta.level >= before.len() {
        r == Err::<(), UnifyError>(UnifyError::Mismatch) && after == before
    } else {
        match before[meta.level as int] {
            None => exists|e: Expr<'core>| #[trigger]
                e@ == solution && match eval_spec(opts, before, SharedEnv::Empty, e, fuel) {
                    Some(value) => r == Ok::<(), UnifyError>(()) && after == before.update(
                        meta.level as int,
                        Some(value),
                    ),
                    None => r == Err::<(), UnifyError>(UnifyError::OutOfFuel) && after == before,
                },
            Some(existing) => after == before && match quote_spec(opts, before, 0, existing, fuel) {
                Some(term) => r == (if term.alpha_eq(solution) {
                    Ok::<(), UnifyError>(())
                } else {
                    Err::<(), UnifyError>(UnifyError::Mismatch)
                }),
                None => r == Err::<(), UnifyError>(UnifyError::OutOfFuel),
            },
        }
    }
}

/// Whether solving `meta`, applied to `spine`, with `rhs` takes the
/// solutions from `before` to `after` with the outcome `r`.
pub open spec fn solve_rel<'core>(
    opts: EvalOpts,
    types: Seq<Value<'core>>,
    len: usize,
    meta: AbsoluteVar,
    spine: Spine<'core>,
    rhs: Value<'core>,
    fuel: nat,
    before: Seq<Option<Value<'core>>>,
    r: Result<(), UnifyError>,
    after: Seq<Option<Value<'core>>>,
) -> bool {
    match pattern_spec(opts, before, len, types, meta, spine, fuel) {
        Err(error) => r == Err::<(), UnifyError>(error) && after == before,
        Ok(pattern) => match rename_spec(
            opts,
            before,
            pattern.source,
            pattern.target,
            meta,
            rhs,
            fuel,
        ) {
            Err(error) => r == Err::<(), UnifyError>(error) && after == before,
            Ok(body) => assign_rel(opts, meta, fun_lits(pattern.params, body), fuel, before, r, after),
        },
    }
}

/// Names the outcome of a first step and the solutions after it, where a
/// second step follows.
pub open spec fn between<'core>(first: Result<(), UnifyError>, mid: Seq<Option<Value<'core>>>) -> bool {
    true
}

/// The outcome that two things differ.
pub open spec fn mismatch() -> Result<(), UnifyError> {
    Err(UnifyError::Mismatch)
}

/// The outcome that the fuel ran out.
pub open spec fn out_of_fuel() -> Result<(), UnifyError> {
    Err(UnifyError::OutOfFuel)
}

/// Whether unifying `lhs` and `rhs`, where `len` variables with the types
/// `types` are in scope, takes the solutions of the metavariables from
/// `before` to `after` with the outcome `r`.
pub open spec fn unify_rel<'core>(
    opts: EvalOpts,
    types: Seq<Value<'core>>,
    len: usize,
    lhs: Value<'core>,
    rhs: Value<'core>,
    fuel: nat,
    before: Seq<Option<Value<'core>>>,
    r: Result<(), UnifyError>,
    after: Seq<Option<Value<'core>>>,
) -> bool
    decreases fuel, 0nat, 0nat,
{
    if fuel == 0 {
        r == out_of_fuel() && after == before
    } else {
        let fuel = (fuel - 1) as nat;
        match (force_spec(opts, before, lhs, fuel), force_spec(opts, before, rhs, fuel)) {
            (Some(lhs), Some(rhs)) => match (lhs, rhs) {
                (Value::Neutral(Head::Error, _), _) | (_, Value::Neutral(Head::Error, _)) => {
                    r == Ok::<(), UnifyError>(()) && after == before
                },
                (Value::Lit(a), Value::Lit(b)) => after == before && r == (if a == b {
                    Ok::<(), UnifyError>(())
                } else {
                    mismatch()
                }),
                (Value::Prim(a), Value::Prim(b)) => after == before && r == (if a == b {
                    Ok::<(), UnifyError>(())
                } else {
                    mismatch()
                }),
                (Value::Neutral(head1, spine1), Value::Neutral(head2, spine2)) => {
                    if head1 == head2 {
                        spines_rel(opts, types, len, spine1, spine2, fuel, before, r, after)
                    } else if head1 is MetaVar {
                        solve_rel(
                            opts,
                            types,
                            len,
                            head1->MetaVar_0,
                            spine1,
                            rhs,
                            fuel,
                            before,
                            r,
                            after,
                        )
                    } else if head2 is MetaVar {
                        solve_rel(
                            opts,
                            types,
                            len,
                            head2->MetaVar_0,
                            spine2,
                            lhs,
                            fuel,
                            before,
                            r,
                            after,
                        )
                    } else {
                        r == mismatch() && after == before
                    }
                },
                (Value::Neutral(Head::MetaVar(meta), spine), _) => solve_rel(
                    opts,
                    types,
                    len,
                    meta,
                    spine,
                    rhs,
                    fuel,
                    before,
                    r,
                    after,
                ),
                (_, Value::Neutral(Head::MetaVar(meta), spine)) => solve_rel(
                    opts,
                    types,
                    len,
                    meta,
                    spine,
                    lhs,
                    fuel,
                    before,
                    r,
                    after,
                ),
                (
                    Value::FunType { param: param1, body: body1 },
                    Value::FunType { param: param2, body: body2 },
                ) => {
                    if param1.plicity != param2.plicity {
                        r == mismatch() && after == before
                    } else {
                        exists|first: Result<(), UnifyError>, mid: Seq<Option<Value<'core>>>| #[trigger]
                            between(first, mid) && unify_rel(
                                opts,
                                types,
                                len,
                                *param1.ty,
                                *param2.ty,
                                fuel,
                                before,
                                first,
                                mid,
                            ) && (if first is Ok {
                                closures_rel(opts, types, len, body1, body2, fuel, mid, r, after)
                            } else {
                                r == first && after == mid
                            })
                    }
                },
                (
                    Value::FunLit { param: param1, body: body1 },
                    Value::FunLit { param: param2, body: body2 },
                ) => {
                    if param1.plicity != param2.plicity {
                        r == mismatch() && after == before
                    } else {
                        closures_rel(opts, types, len, body1, body2, fuel, before, r, after)
                    }
                },
                (Value::RecordType(telescope1), Value::RecordType(telescope2)) => telescopes_rel(
                    opts,
                    types,
                    len,
                    telescope1.env,
                    telescope1.fields@,
                    telescope1.start as nat,
                    telescope2.env,
                    telescope2.fields@,
                    telescope2.start as nat,
                    fuel,
                    before,
                    r,
                    after,
                ),
                (Value::RecordLit(fields1), Value::RecordLit(fields2)) => fields_rel(
                    opts,
                    types,
                    len,
                    fields1,
                    fields2,
                    fuel,
                    before,
                    r,
                    after,
                ),
                _ => r == mismatch() && after == before,
            },
            _ => r == out_of_fuel() && after == before,
        }
    }
}

/// Whether unifying the bodies of two closures under their binder takes the
/// solutions from `before` to `after` with the outcome `r`.
pub open spec fn closures_rel<'core>(
    opts: EvalOpts,
    types: Seq<Value<'core>>,
    len: usize,
    closure1: Closure<'core>,
    closure2: Closure<'core>,
    fuel: nat,
    before: Seq<Option<Value<'core>>>,
    r: Result<(), UnifyError>,
    after: Seq<Option<Value<'core>>>,
) -> bool
    decreases fuel, 1nat, 0nat,
{
    if len == usize::MAX {
        r == out_of_fuel() && after == before
    } else {
        match (
            eval_spec(opts, before, closure1.env.pushed(var_value(len)), *closure1.body, fuel),
            eval_spec(opts, before, closure2.env.pushed(var_value(len)), *closure2.body, fuel),
        ) {
            (Some(body1), Some(body2)) => unify_rel(
                opts,
                types,
                (len + 1) as usize,
                body1,
                body2,
                fuel,
                before,
                r,
                after,
            ),
            _ => r == out_of_fuel() && after == before,
        }
    }
}

/// Whether unifying two branches of matches that wait takes the solutions
/// from `before` to `after` with the outcome `r`.
pub open spec fn branches_rel<'core>(
    opts: EvalOpts,
    types: Seq<Value<'core>>,
    len: usize,
    env1: ValueEnv<'core>,
    branch1: Expr<'core>,
    env2: ValueEnv<'core>,
    branch2: Expr<'core>,
    fuel: nat,
    before: Seq<Option<Value<'core>>>,
    r: Result<(), UnifyError>,
    after: Seq<Option<Value<'core>>>,
) -> bool
    decreases fuel, 1nat, 0nat,
{
    match (eval_spec(opts, before, env1, branch1, fuel), eval_spec(opts, before, env2, branch2, fuel)) {
        (Some(value1), Some(value2)) => unify_rel(
            opts,
            types,
            len,
            value1,
            value2,
            fuel,
            before,
            r,
            after,
        ),
        _ => r == out_of_fuel() && after == before,
    }
}

/// Whether unifying the cases from `from` on of two matches on integers
/// takes the solutions from `before` to `after` with the outcome `r`.
pub open spec fn cases_rel<'core>(
    opts: EvalOpts,
    types: Seq<Value<'core>>,
    len: usize,
    env1: ValueEnv<'core>,
    cases1: Seq<(u32, Expr<'core>)>,
    env2: ValueEnv<'core>,
    cases2: Seq<(u32, Expr<'core>)>,
    from: nat,
    fuel: nat,
    before: Seq<Option<Value<'core>>>,
    r: Result<(), UnifyError>,
    after: Seq<Option<Value<'core>>>,
) -> bool
    decreases fuel, 2nat, cases1.len() - from,
{
    if cases1.len() != cases2.len() {
        r == mismatch() && after == before
    } else if from >= cases1.len() {
        r == Ok::<(), UnifyError>(()) && after == before
    } else if cases1[from as int].0 != cases2[from as int].0 {
        r == mismatch() && after == before
    } else {
        exists|first: Result<(), UnifyError>, mid: Seq<Option<Value<'core>>>| #[trigger]
            between(first, mid) && branches_rel(
                opts,
                types,
                len,
                env1,
                cases1[from as int].1,
                env2,
                cases2[from as int].1,
                fuel,
                before,
                first,
                mid,
            ) && (if first is Ok {
                cases_rel(
                    opts,
                    types,
                    len,
                    env1,
                    cases1,
                    env2,
                    cases2,
                    from + 1,
                    fuel,
                    mid,
                    r,
                    after,
                )
            } else {
                r == first && after == mid
            })
    }
}

/// Whether unifying two eliminations takes the solutions from `before` to
/// `after` with the outcome `r`.
pub open spec fn elims_rel<'core>(
    opts: EvalOpts,
    types: Seq<Value<'core>>,
    len: usize,
    elim1: Elim<'core>,
    elim2: Elim<'core>,
    fuel: nat,
    before: Seq<Option<Value<'core>>>,
    r: Result<(), UnifyError>,
    after: Seq<Option<Value<'core>>>,
) -> bool
    decreases fuel, 3nat, 0nat,
{
    match (elim1, elim2) {
        (Elim::FunApp(arg1), Elim::FunApp(arg2)) => if arg1.plicity != arg2.plicity {
            r == mismatch() && after == before
        } else {
            unify_rel(opts, types, len, *arg1.expr, *arg2.expr, fuel, before, r, after)
        },
        (Elim::RecordProj(label1), Elim::RecordProj(label2)) => after == before && r == (
        if label1@ == label2@ {
            Ok::<(), UnifyError>(())
        } else {
            mismatch()
        }),
        (
            Elim::MatchBool { env: env1, then_branch: then1, else_branch: else1 },
            Elim::MatchBool { env: env2, then_branch: then2, else_branch: else2 },
        ) => {
            exists|first: Result<(), UnifyError>, mid: Seq<Option<Value<'core>>>| #[trigger]
                between(first, mid) && branches_rel(
                    opts,
                    types,
                    len,
                    env1,
                    *then1,
                    env2,
                    *then2,
                    fuel,
                    before,
                    first,
                    mid,
                ) && (if first is Ok {
                    branches_rel(opts, types, len, env1, *else1, env2, *else2, fuel, mid, r, after)
                } else {
                    r == first && after == mid
                })
        },
        (
            Elim::MatchInt { env: env1, cases: cases1, default: default1 },
            Elim::MatchInt { env: env2, cases: cases2, default: default2 },
        ) => {
            exists|first: Result<(), UnifyError>, mid: Seq<Option<Value<'core>>>| #[trigger]
                between(first, mid) && cases_rel(
                    opts,
                    types,
                    len,
                    env1,
                    cases1@,
                    env2,
                    cases2@,
                    0,
                    fuel,
                    before,
                    first,
                    mid,
                ) && (if first is Ok {
                    branches_rel(
                        opts,
                        types,
                        len,
                        env1,
                        *default1,
                        env2,
                        *default2,
                        fuel,
                        mid,
                        r,
                        after,
                    )
                } else {
                    r == first && after == mid
                })
        },
        _ => r == mismatch() && after == before,
    }
}

/// Whether unifying two spines, elimination by elimination from the first,
/// takes the solutions from `before` to `after` with the outcome `r`.
pub open spec fn spines_rel<'core>(
    opts: EvalOpts,
    types: Seq<Value<'core>>,
    len: usize,
    spine1: Spine<'core>,
    spine2: Spine<'core>,
    fuel: nat,
    before: Seq<Option<Value<'core>>>,
    r: Result<(), UnifyError>,
    after: Seq<Option<Value<'core>>>,
) -> bool
    decreases fuel, 4nat, spine1@.len(),
{
    match (spine1, spine2) {
        (SharedEnv::Empty, SharedEnv::Empty) => r == Ok::<(), UnifyError>(()) && after == before,
        (SharedEnv::Entry(entry1), SharedEnv::Entry(entry2)) => {
            exists|first: Result<(), UnifyError>, mid: Seq<Option<Value<'core>>>| #[trigger]
                between(first, mid) && spines_rel(
                    opts,
                    types,
                    len,
                    entry1.rest,
                    entry2.rest,
                    fuel,
                    before,
                    first,
                    mid,
                ) && (if first is Ok {
                    elims_rel(opts, types, len, entry1.top, entry2.top, fuel, mid, r, after)
                } else {
                    r == first && after == mid
                })
        },
        _ => r == mismatch() && after == before,
    }
}

/// Whether unifying two records, field by field from the first, takes the
/// solutions from `before` to `after` with the outcome `r`.
pub open spec fn fields_rel<'core>(
    opts: EvalOpts,
    types: Seq<Value<'core>>,
    len: usize,
    fields1: SharedEnv<'core, (Symbol<'core>, Value<'core>)>,
    fields2: SharedEnv<'core, (Symbol<'core>, Value<'core>)>,
    fuel: nat,
    before: Seq<Option<Value<'core>>>,
    r: Result<(), UnifyError>,
    after: Seq<Option<Value<'core>>>,
) -> bool
    decreases fuel, 4nat, fields1@.len(),
{
    match (fields1, fields2) {
        (SharedEnv::Empty, SharedEnv::Empty) => r == Ok::<(), UnifyError>(()) && after == before,
        (SharedEnv::Entry(entry1), SharedEnv::Entry(entry2)) => {
            exists|first: Result<(), UnifyError>, mid: Seq<Option<Value<'core>>>| #[trigger]
                between(first, mid) && fields_rel(
                    opts,
                    types,
                    len,
                    entry1.rest,
                    entry2.rest,
                    fuel,
                    before,
                    first,
                    mid,
                ) && (if first is Ok {
                    (if entry1.top.0@ != entry2.top.0@ {
                        r == mismatch() && after == mid
                    } else {
                        unify_rel(opts, types, len, entry1.top.1, entry2.top.1, fuel, mid, r, after)
                    })
                } else {
                    r == first && after == mid
                })
        },
        _ => r == mismatch() && after == before,
    }
}

/// Whether unifying two telescopes from their fields `from1` and `from2` on
/// takes the solutions from `before` to `after` with the outcome `r`.
pub open spec fn telescopes_rel<'core>(
    opts: EvalOpts,
    types: Seq<Value<'core>>,
    len: usize,
    env1: ValueEnv<'core>,
    fields1: Seq<(Symbol<'core>, Expr<'core>)>,
    from1: nat,
    env2: ValueEnv<'core>,
    fields2: Seq<(Symbol<'core>, Expr<'core>)>,
    from2: nat,
    fuel: nat,
    before: Seq<Option<Value<'core>>>,
    r: Result<(), UnifyError>,
    after: Seq<Option<Value<'core>>>,
) -> bool
    decreases fuel, 4nat, fields1.len() - from1,
{
    if from1 >= fields1.len() || from2 >= fields2.len() {
        after == before && r == (if from1 >= fields1.len() && from2 >= fields2.len() {
            Ok::<(), UnifyError>(())
        } else {
            mismatch()
        })
    } else if fields1[from1 as int].0@ != fields2[from2 as int].0@ {
        r == mismatch() && after == before
    } else if len == usize::MAX {
        r == out_of_fuel() && after == before
    } else {
        exists|first: Result<(), UnifyError>, mid: Seq<Option<Value<'core>>>| #[trigger]
            between(first, mid) && branches_rel(
                opts,
                types,
                len,
                env1,
                fields1[from1 as int].1,
                env2,
                fields2[from2 as int].1,
                fuel,
                before,
                first,
                mid,
            ) && (if first is Ok {
                telescopes_rel(
                    opts,
                    types,
                    (len + 1) as usize,
                    env1.pushed(var_value(len)),
                    fields1,
                    from1 + 1,
                    env2.pushed(var_value(len)),
                    fields2,
                    from2 + 1,
                    fuel,
                    mid,
                    r,
                    after,
                )
            } else {
                r == first && after == mid
            })
    }
}

/// The models of the parameters of a solution.
pub open spec fn params_model(params: Seq<(Plicity, Expr)>) -> Seq<(Plicity, Term)> {
    Seq::new(params.len(), |i: int| (params[i].0, params[i].1@))
}

/// What unification needs besides the solutions of the metavariables: the
/// arena, the options of evaluation, and the number and the types of the
/// variables in scope.
#[derive(Debug, Copy, Clone)]
pub struct UnifyCtx<'core, 'env> {
    pub bump: &'core bumpalo::Bump,
    pub opts: EvalOpts,
    pub local_len: EnvLen,
    pub local_types: &'env UniqueEnv<Type<'core>>,
}

impl<'core, 'env> UnifyCtx<'core, 'env> {
    pub fn new(
        bump: &'core bumpalo::Bump,
        local_len: EnvLen,
        local_types: &'env UniqueEnv<Type<'core>>,
    ) -> (ctx: Self)
        ensures
            ctx.bump == bump,
            ctx.opts == (EvalOpts { unfold_fix: false, unfold_let: true }),
            ctx.local_len == local_len,
            ctx.local_types == local_types,
    {
        UnifyCtx { bump, opts: EvalOpts::default(), local_len, local_types }
    }

    /// Unifies two values: solves metavariables so that the values become
    /// equal, or says why it could not. A metavariable that has a solution
    /// keeps it.
    pub fn unify(
        &self,
        renaming: &mut PartialRenaming,
        metas: &mut UniqueEnv<Option<Value<'core>>>,
        lhs: &Value<'core>,
        rhs: &Value<'core>,
        fuel: usize,
    ) -> (r: Result<(), UnifyError>)
        ensures
            unify_rel(
                self.opts,
                self.local_types@,
                self.local_len.len,
                *lhs,
                *rhs,
                fuel as nat,
                old(metas)@,
                r,
                final(metas)@,
            ),
    {
        self.unify_at(renaming, metas, self.local_len.len, *lhs, *rhs, fuel)
    }

    /// Gives the metavariable `meta` the solution `solution`, a closed
    /// term. Where it has a solution already, that solution stays, and the
    /// outcome says whether it reads back as the same term.
    pub fn solve_meta(
        &self,
        metas: &mut UniqueEnv<Option<Value<'core>>>,
        meta: AbsoluteVar,
        solution: &Expr<'core>,
        fuel: usize,
    ) -> (r: Result<(), UnifyError>)
        ensures
            assign_rel(self.opts, meta, solution@, fuel as nat, old(metas)@, r, final(metas)@),
    {
        let existing = match metas.get_absolute(meta) {
            Some(existing) => *existing,
            None => {
                return Err(UnifyError::Mismatch);
            },
        };
        match existing {
            None => {
                let value = ElimEnv::new(self.bump, self.opts, metas).eval(
                    SharedEnv::Empty,
                    solution,
                    fuel,
                );
                match value {
                    Some(value) => {
                        metas.set_absolute(meta, Some(value));
                        Ok(())
                    },
                    None => Err(UnifyError::OutOfFuel),
                }
            },
            Some(existing) => {
                let quote_env = QuoteEnv {
                    elim_env: ElimEnv::new(self.bump, self.opts, metas),
                    local_len: EnvLen::new(),
                };
                match quote_env.quote(&existing, fuel) {
                    Some(term) => if term.alpha_eq(solution) {
                        Ok(())
                    } else {
                        Err(UnifyError::Mismatch)
                    },
                    None => Err(UnifyError::OutOfFuel),
                }
            },
        }
    }

    /// Reads the pattern off a spine: sets `renaming` to the renaming of
    /// its variables, and `params` to the parameters of the solution.
    fn pattern(
        &self,
        renaming: &mut PartialRenaming,
        metas: &UniqueEnv<Option<Value<'core>>>,
        len: usize,
        meta: AbsoluteVar,
        spine: Spine<'core>,
        params: &mut Vec<(Plicity, Expr<'core>)>,
        fuel: usize,
    ) -> (r: Result<(), UnifyError>)
        ensures
            match pattern_spec(self.opts, metas@, len, self.local_types@, meta, spine, fuel as nat) {
                Ok(pattern) => {
                    &&& r is Ok
                    &&& final(renaming).source@ == pattern.source
                    &&& final(renaming).target.len == pattern.target
                    &&& params_model(final(params)@) == pattern.params
                },
                Err(error) => r == Err::<(), UnifyError>(error),
            },
        decreases spine,
    {
        let entry = match spine {
            SharedEnv::Empty => {
                renaming.init(EnvLen { len });
                params.clear();
                assert(params_model(params@) =~= Seq::empty());
                return Ok(());
            },
            SharedEnv::Entry(entry) => entry,
        };
        match self.pattern(renaming, metas, len, meta, entry.rest, params, fuel) {
            Ok(()) => {},
            Err(error) => {
                return Err(error);
            },
        }
        let elim_env = ElimEnv::new(self.bump, self.opts, metas);
        match entry.top {
            Elim::FunApp(arg) => match elim_env.force(*arg.expr, fuel) {
                Some(Value::Neutral(Head::LocalVar(var), SharedEnv::Empty)) => {
                    if var.level >= renaming.source.len().len {
                        return Err(UnifyError::Spine(SpineError::NonLocalFunApp));
                    }
                    if renaming.is_bound(var) {
                        return Err(UnifyError::Spine(SpineError::NonLinearSpine(var)));
                    }
                    if renaming.target.len == usize::MAX {
                        return Err(UnifyError::OutOfFuel);
                    }
                    let ty = match self.local_types.get_absolute(var) {
                        Some(ty) => {
                            let rename_env = RenameEnv { elim_env, meta };
                            match rename_env.rename(renaming, ty, fuel) {
                                Ok(ty) => ty,
                                Err(_) => Expr::Error,
                            }
                        },
                        None => Expr::Error,
                    };
                    let ghost before = params_model(params@);
                    params.push((arg.plicity, ty));
                    assert(params_model(params@) =~= before.push((arg.plicity, ty@)));
                    renaming.set_local(var);
                    Ok(())
                },
                Some(_) => Err(UnifyError::Spine(SpineError::NonLocalFunApp)),
                None => Err(UnifyError::OutOfFuel),
            },
            Elim::RecordProj(_) => Err(UnifyError::Spine(SpineError::RecordProj)),
            Elim::MatchBool { .. } | Elim::MatchInt { .. } => Err(
                UnifyError::Spine(SpineError::Match),
            ),
        }
    }

    /// `body` under one function literal for each parameter.
    fn fun_lits(&self, params: &Vec<(Plicity, Expr<'core>)>, body: Expr<'core>) -> (r: Expr<'core>)
        ensures
            r@ == fun_lits(params_model(params@), body@),
    {
        let ghost all = params_model(params@);
        let mut result = body;
        let mut i: usize = params.len();
        proof {
            assert(all.subrange(i as int, all.len() as int) =~= Seq::empty());
        }
        while i > 0
            invariant
                i <= params@.len(),
                all == params_model(params@),
                result@ == fun_lits(all.subrange(i as int, all.len() as int), body@),
            decreases i,
        {
            i -= 1;
            let (plicity, ty) = params[i];
            proof {
                let rest = all.subrange(i as int, all.len() as int);
                assert(rest.drop_first() =~= all.subrange(i + 1, all.len() as int));
                assert(rest[0] == all[i as int]);
            }
            let ty = arena_alloc(self.bump, ty);
            let inner = arena_alloc(self.bump, result);
            result = Expr::FunLit { param: FunParam::new(plicity, None, ty), body: inner };
        }
        proof {
            assert(all.subrange(0, all.len() as int) =~= all);
        }
        result
    }

    /// Solves `meta`, applied to `spine`, with `rhs`.
    fn solve(
        &self,
        renaming: &mut PartialRenaming,
        metas: &mut UniqueEnv<Option<Value<'core>>>,
        len: usize,
        meta: AbsoluteVar,
        spine: Spine<'core>,
        rhs: Value<'core>,
        fuel: usize,
    ) -> (r: Result<(), UnifyError>)
        ensures
            solve_rel(
                self.opts,
                self.local_types@,
                len,
                meta,
                spine,
                rhs,
                fuel as nat,
                old(metas)@,
                r,
                final(metas)@,
            ),
    {
        let mut params: Vec<(Plicity, Expr<'core>)> = Vec::new();
        match self.pattern(renaming, metas, len, meta, spine, &mut params, fuel) {
            Ok(()) => {},
            Err(error) => {
                return Err(error);
            },
        }
        let rename_env = RenameEnv { elim_env: ElimEnv::new(self.bump, self.opts, metas), meta };
        let body = match rename_env.rename(renaming, &rhs, fuel) {
            Ok(body) => body,
            Err(error) => {
                return Err(error);
            },
        };
        let solution = self.fun_lits(&params, body);
        self.solve_meta(metas, meta, &solution, fuel)
    }

    /// Unifies two values where `len` variables are in scope.
    fn unify_at(
        &self,
        renaming: &mut PartialRenaming,
        metas: &mut UniqueEnv<Option<Value<'core>>>,
        len: usize,
        lhs: Value<'core>,
        rhs: Value<'core>,
        fuel: usize,
    ) -> (r: Result<(), UnifyError>)
        ensures
            unify_rel(
                self.opts,
                self.local_types@,
                len,
                lhs,
                rhs,
                fuel as nat,
                old(metas)@,
                r,
                final(metas)@,
            ),
        decreases fuel, 0nat, 0nat,
    {
        if fuel == 0 {
            return Err(UnifyError::OutOfFuel);
        }
        let fuel = fuel - 1;
        let elim_env = ElimEnv::new(self.bump, self.opts, metas);
        let lhs = elim_env.force(lhs, fuel);
        let rhs = elim_env.force(rhs, fuel);
        let (lhs, rhs) = match (lhs, rhs) {
            (Some(lhs), Some(rhs)) => (lhs, rhs),
            _ => {
                return Err(UnifyError::OutOfFuel);
            },
        };
        match (lhs, rhs) {
            (Value::Neutral(Head::Error, _), _) | (_, Value::Neutral(Head::Error, _)) => Ok(()),
            (Value::Lit(a), Value::Lit(b)) => if a == b {
                Ok(())
            } else {
                Err(UnifyError::Mismatch)
            },
            (Value::Prim(a), Value::Prim(b)) => if a == b {
                Ok(())
            } else {
                Err(UnifyError::Mismatch)
            },
            (Value::Neutral(head1, spine1), Value::Neutral(head2, spine2)) => {
                if head1 == head2 {
                    self.unify_spines(renaming, metas, len, spine1, spine2, fuel)
                } else {
                    match (head1, head2) {
                        (Head::MetaVar(meta), _) => self.solve(
                            renaming,
                            metas,
                            len,
                            meta,
                            spine1,
                            rhs,
                            fuel,
                        ),
                        (_, Head::MetaVar(meta)) => self.solve(
                            renaming,
                            metas,
                            len,
                            meta,
                            spine2,
                            lhs,
                            fuel,
                        ),
                        _ => Err(UnifyError::Mismatch),
                    }
                }
            },
            (Value::Neutral(Head::MetaVar(meta), spine), _) => self.solve(
                renaming,
                metas,
                len,
                meta,
                spine,
                rhs,
                fuel,
            ),
            (_, Value::Neutral(Head::MetaVar(meta), spine)) => self.solve(
                renaming,
                metas,
                len,
                meta,
                spine,
                lhs,
                fuel,
            ),
            (
                Value::FunType { param: param1, body: body1 },
                Value::FunType { param: param2, body: body2 },
            ) => {
                if param1.plicity != param2.plicity {
                    return Err(UnifyError::Mismatch);
                }
                let ghost before = metas@;
                let first = self.unify_at(renaming, metas, len, *param1.ty, *param2.ty, fuel);
                let ghost mid = metas@;
                assert(between(first, mid));
                match first {
                    Ok(_) => {
                        let r = self.unify_closures(renaming, metas, len, body1, body2, fuel);
                        assert(unify_rel(
                            self.opts,
                            self.local_types@,
                            len,
                            *param1.ty,
                            *param2.ty,
                            fuel as nat,
                            before,
                            first,
                            mid,
                        ));
                        r
                    },
                    Err(error) => {
                        assert(unify_rel(
                            self.opts,
                            self.local_types@,
                            len,
                            *param1.ty,
                            *param2.ty,
                            fuel as nat,
                            before,
                            first,
                            mid,
                        ));
                        Err(error)
                    },
                }
            },
            (
                Value::FunLit { param: param1, body: body1 },
                Value::FunLit { param: param2, body: body2 },
            ) => {
                if param1.plicity != param2.plicity {
                    return Err(UnifyError::Mismatch);
                }
                self.unify_closures(renaming, metas, len, body1, body2, fuel)
            },
            (Value::RecordType(telescope1), Value::RecordType(telescope2)) => {
                self.unify_telescopes(
                    renaming,
                    metas,
                    len,
                    telescope1.env,
                    telescope1.fields,
                    telescope1.start,
                    telescope2.env,
                    telescope2.fields,
                    telescope2.start,
                    fuel,
                )
            },
            (Value::RecordLit(fields1), Value::RecordLit(fields2)) => self.unify_fields(
                renaming,
                metas,
                len,
                fields1,
                fields2,
                fuel,
            ),
            _ => Err(UnifyError::Mismatch),
        }
    }

    /// Unifies the bodies of two closures under their binder.
    fn unify_closures(
        &self,
        renaming: &mut PartialRenaming,
        metas: &mut UniqueEnv<Option<Value<'core>>>,
        len: usize,
        closure1: Closure<'core>,
        closure2: Closure<'core>,
        fuel: usize,
    ) -> (r: Result<(), UnifyError>)
        ensures
            closures_rel(
                self.opts,
                self.local_types@,
                len,
                closure1,
                closure2,
                fuel as nat,
                old(metas)@,
                r,
                final(metas)@,
            ),
        decreases fuel, 1nat, 0nat,
    {
        if len == usize::MAX {
            return Err(UnifyError::OutOfFuel);
        }
        let var = Value::local_var(AbsoluteVar { level: len });
        let mut env1 = closure1.env;
        env1.push(self.bump, var);
        let mut env2 = closure2.env;
        env2.push(self.bump, var);
        let elim_env = ElimEnv::new(self.bump, self.opts, metas);
        let body1 = elim_env.eval(env1, closure1.body, fuel);
        let body2 = elim_env.eval(env2, closure2.body, fuel);
        match (body1, body2) {
            (Some(body1), Some(body2)) => self.unify_at(renaming, metas, len + 1, body1, body2, fuel),
            _ => Err(UnifyError::OutOfFuel),
        }
    }

    /// Unifies two branches of matches that wait.
    fn unify_branches(
        &self,
        renaming: &mut PartialRenaming,
        metas: &mut UniqueEnv<Option<Value<'core>>>,
        len: usize,
        env1: ValueEnv<'core>,
        branch1: &Expr<'core>,
        env2: ValueEnv<'core>,
        branch2: &Expr<'core>,
        fuel: usize,
    ) -> (r: Result<(), UnifyError>)
        ensures
            branches_rel(
                self.opts,
                self.local_types@,
                len,
                env1,
                *branch1,
                env2,
                *branch2,
                fuel as nat,
                old(metas)@,
                r,
                final(metas)@,
            ),
        decreases fuel, 1nat, 0nat,
    {
        let elim_env = ElimEnv::new(self.bump, self.opts, metas);
        let value1 = elim_env.eval(env1, branch1, fuel);
        let value2 = elim_env.eval(env2, branch2, fuel);
        match (value1, value2) {
            (Some(value1), Some(value2)) => self.unify_at(
                renaming,
                metas,
                len,
                value1,
                value2,
                fuel,
            ),
            _ => Err(UnifyError::OutOfFuel),
        }
    }

    /// Unifies the cases from `from` on of two matches on integers.
    fn unify_cases(
        &self,
        renaming: &mut PartialRenaming,
        metas: &mut UniqueEnv<Option<Value<'core>>>,
        len: usize,
        env1: ValueEnv<'core>,
        cases1: &Vec<(u32, Expr<'core>)>,
        env2: ValueEnv<'core>,
        cases2: &Vec<(u32, Expr<'core>)>,
        from: usize,
        fuel: usize,
    ) -> (r: Result<(), UnifyError>)
        ensures
            cases_rel(
                self.opts,
                self.local_types@,
                len,
                env1,
                cases1@,
                env2,
                cases2@,
                from as nat,
                fuel as nat,
                old(metas)@,
                r,
                final(metas)@,
            ),
        decreases fuel, 2nat, cases1@.len() - from,
    {
        if cases1.len() != cases2.len() {
            return Err(UnifyError::Mismatch);
        }
        if from >= cases1.len() {
            return Ok(());
        }
        if cases1[from].0 != cases2[from].0 {
            return Err(UnifyError::Mismatch);
        }
        let ghost before = metas@;
        let first = self.unify_branches(
            renaming,
            metas,
            len,
            env1,
            &cases1[from].1,
            env2,
            &cases2[from].1,
            fuel,
        );
        let ghost mid = metas@;
                assert(between(first, mid));
        match first {
            Ok(_) => {
                let r = self.unify_cases(
                    renaming,
                    metas,
                    len,
                    env1,
                    cases1,
                    env2,
                    cases2,
                    from + 1,
                    fuel,
                );
                assert(branches_rel(
                    self.opts,
                    self.local_types@,
                    len,
                    env1,
                    cases1@[from as int].1,
                    env2,
                    cases2@[from as int].1,
                    fuel as nat,
                    before,
                    first,
                    mid,
                ));
                r
            },
            Err(error) => {
                assert(branches_rel(
                    self.opts,
                    self.local_types@,
                    len,
                    env1,
                    cases1@[from as int].1,
                    env2,
                    cases2@[from as int].1,
                    fuel as nat,
                    before,
                    first,
                    mid,
                ));
                Err(error)
            },
        }
    }

    /// Unifies two eliminations.
    fn unify_elims(
        &self,
        renaming: &mut PartialRenaming,
        metas: &mut UniqueEnv<Option<Value<'core>>>,
        len: usize,
        elim1: Elim<'core>,
        elim2: Elim<'core>,
        fuel: usize,
    ) -> (r: Result<(), UnifyError>)
        ensures
            elims_rel(
                self.opts,
                self.local_types@,
                len,
                elim1,
                elim2,
                fuel as nat,
                old(metas)@,
                r,
                final(metas)@,
            ),
        decreases fuel, 3nat, 0nat,
    {
        match (elim1, elim2) {
            (Elim::FunApp(arg1), Elim::FunApp(arg2)) => {
                if arg1.plicity != arg2.plicity {
                    return Err(UnifyError::Mismatch);
                }
                self.unify_at(renaming, metas, len, *arg1.expr, *arg2.expr, fuel)
            },
            (Elim::RecordProj(label1), Elim::RecordProj(label2)) => if label1 == label2 {
                Ok(())
            } else {
                Err(UnifyError::Mismatch)
            },
            (
                Elim::MatchBool { env: env1, then_branch: then1, else_branch: else1 },
                Elim::MatchBool { env: env2, then_branch: then2, else_branch: else2 },
            ) => {
                let ghost before = metas@;
                let first = self.unify_branches(renaming, metas, len, env1, then1, env2, then2, fuel);
                let ghost mid = metas@;
                assert(between(first, mid));
                match first {
                    Ok(_) => {
                        let r = self.unify_branches(
                            renaming,
                            metas,
                            len,
                            env1,
                            else1,
                            env2,
                            else2,
                            fuel,
                        );
                        assert(branches_rel(
                            self.opts,
                            self.local_types@,
                            len,
                            env1,
                            *then1,
                            env2,
                            *then2,
                            fuel as nat,
                            before,
                            first,
                            mid,
                        ));
                        r
                    },
                    Err(error) => {
                        assert(branches_rel(
                            self.opts,
                            self.local_types@,
                            len,
                            env1,
                            *then1,
                            env2,
                            *then2,
                            fuel as nat,
                            before,
                            first,
                            mid,
                        ));
                        Err(error)
                    },
                }
            },
            (
                Elim::MatchInt { env: env1, cases: cases1, default: default1 },
                Elim::MatchInt { env: env2, cases: cases2, default: default2 },
            ) => {
                let ghost before = metas@;
                let first = self.unify_cases(renaming, metas, len, env1, cases1, env2, cases2, 0, fuel);
                let ghost mid = metas@;
                assert(between(first, mid));
                match first {
                    Ok(_) => {
                        let r = self.unify_branches(
                            renaming,
                            metas,
                            len,
                            env1,
                            default1,
                            env2,
                            default2,
                            fuel,
                        );
                        assert(cases_rel(
                            self.opts,
                            self.local_types@,
                            len,
                            env1,
                            cases1@,
                            env2,
                            cases2@,
                            0,
                            fuel as nat,
                            before,
                            first,
                            mid,
                        ));
                        r
                    },
                    Err(error) => {
                        assert(cases_rel(
                            self.opts,
                            self.local_types@,
                            len,
                            env1,
                            cases1@,
                            env2,
                            cases2@,
                            0,
                            fuel as nat,
                            before,
                            first,
                            mid,
                        ));
                        Err(error)
                    },
                }
            },
            _ => Err(UnifyError::Mismatch),
        }
    }

    /// Unifies two spines, elimination by elimination from the first.
    fn unify_spines(
        &self,
        renaming: &mut PartialRenaming,
        metas: &mut UniqueEnv<Option<Value<'core>>>,
        len: usize,
        spine1: Spine<'core>,
        spine2: Spine<'core>,
        fuel: usize,
    ) -> (r: Result<(), UnifyError>)
        ensures
            spines_rel(
                self.opts,
                self.local_types@,
                len,
                spine1,
                spine2,
                fuel as nat,
                old(metas)@,
                r,
                final(metas)@,
            ),
        decreases fuel, 4nat, spine1@.len(),
    {
        match (spine1, spine2) {
            (SharedEnv::Empty, SharedEnv::Empty) => Ok(()),
            (SharedEnv::Entry(entry1), SharedEnv::Entry(entry2)) => {
                let ghost before = metas@;
                let first = self.unify_spines(renaming, metas, len, entry1.rest, entry2.rest, fuel);
                let ghost mid = metas@;
                assert(between(first, mid));
                match first {
                    Ok(_) => {
                        let r = self.unify_elims(
                            renaming,
                            metas,
                            len,
                            entry1.top,
                            entry2.top,
                            fuel,
                        );
                        assert(spines_rel(
                            self.opts,
                            self.local_types@,
                            len,
                            entry1.rest,
                            entry2.rest,
                            fuel as nat,
                            before,
                            first,
                            mid,
                        ));
                        r
                    },
                    Err(error) => {
                        assert(spines_rel(
                            self.opts,
                            self.local_types@,
                            len,
                            entry1.rest,
                            entry2.rest,
                            fuel as nat,
                            before,
                            first,
                            mid,
                        ));
                        Err(error)
                    },
                }
            },
            _ => Err(UnifyError::Mismatch),
        }
    }

    /// Unifies two records, field by field from the first.
    fn unify_fields(
        &self,
        renaming: &mut PartialRenaming,
        metas: &mut UniqueEnv<Option<Value<'core>>>,
        len: usize,
        fields1: SharedEnv<'core, (Symbol<'core>, Value<'core>)>,
        fields2: SharedEnv<'core, (Symbol<'core>, Value<'core>)>,
        fuel: usize,
    ) -> (r: Result<(), UnifyError>)
        ensures
            fields_rel(
                self.opts,
                self.local_types@,
                len,
                fields1,
                fields2,
                fuel as nat,
                old(metas)@,
                r,
                final(metas)@,
            ),
        decreases fuel, 4nat, fields1@.len(),
    {
        match (fields1, fields2) {
            (SharedEnv::Empty, SharedEnv::Empty) => Ok(()),
            (SharedEnv::Entry(entry1), SharedEnv::Entry(entry2)) => {
                let ghost before = metas@;
                let first = self.unify_fields(renaming, metas, len, entry1.rest, entry2.rest, fuel);
                let ghost mid = metas@;
                assert(between(first, mid));
                match first {
                    Ok(_) => {
                        assert(fields_rel(
                            self.opts,
                            self.local_types@,
                            len,
                            entry1.rest,
                            entry2.rest,
                            fuel as nat,
                            before,
                            first,
                            mid,
                        ));
                        if entry1.top.0 != entry2.top.0 {
                            return Err(UnifyError::Mismatch);
                        }
                        self.unify_at(renaming, metas, len, entry1.top.1, entry2.top.1, fuel)
                    },
                    Err(error) => {
                        assert(fields_rel(
                            self.opts,
                            self.local_types@,
                            len,
                            entry1.rest,
                            entry2.rest,
                            fuel as nat,
                            before,
                            first,
                            mid,
                        ));
                        Err(error)
                    },
                }
            },
            _ => Err(UnifyError::Mismatch),
        }
    }

    /// Unifies two telescopes from their fields `from1` and `from2` on.
    fn unify_telescopes(
        &self,
        renaming: &mut PartialRenaming,
        metas: &mut UniqueEnv<Option<Value<'core>>>,
        len: usize,
        env1: ValueEnv<'core>,
        fields1: &Vec<(Symbol<'core>, Expr<'core>)>,
        from1: usize,
        env2: ValueEnv<'core>,
        fields2: &Vec<(Symbol<'core>, Expr<'core>)>,
        from2: usize,
        fuel: usize,
    ) -> (r: Result<(), UnifyError>)
        ensures
            telescopes_rel(
                self.opts,
                self.local_types@,
                len,
                env1,
                fields1@,
                from1 as nat,
                env2,
                fields2@,
                from2 as nat,
                fuel as nat,
                old(metas)@,
                r,
                final(metas)@,
            ),
        decreases fuel, 4nat, fields1@.len() - from1,
    {
        if from1 >= fields1.len() || from2 >= fields2.len() {
            return if from1 >= fields1.len() && from2 >= fields2.len() {
                Ok(())
            } else {
                Err(UnifyError::Mismatch)
            };
        }
        if fields1[from1].0 != fields2[from2].0 {
            return Err(UnifyError::Mismatch);
        }
        if len == usize::MAX {
            return Err(UnifyError::OutOfFuel);
        }
        let ghost before = metas@;
        let first = self.unify_branches(
            renaming,
            metas,
            len,
            env1,
            &fields1[from1].1,
            env2,
            &fields2[from2].1,
            fuel,
        );
        let ghost mid = metas@;
                assert(between(first, mid));
        match first {
            Ok(_) => {
                let var = Value::local_var(AbsoluteVar { level: len });
                let mut inner1 = env1;
                inner1.push(self.bump, var);
                let mut inner2 = env2;
                inner2.push(self.bump, var);
                let r = self.unify_telescopes(
                    renaming,
                    metas,
                    len + 1,
                    inner1,
                    fields1,
                    from1 + 1,
                    inner2,
                    fields2,
                    from2 + 1,
                    fuel,
                );
                assert(branches_rel(
                    self.opts,
                    self.local_types@,
                    len,
                    env1,
                    fields1@[from1 as int].1,
                    env2,
                    fields2@[from2 as int].1,
                    fuel as nat,
                    before,
                    first,
                    mid,
                ));
                r
            },
            Err(error) => {
                assert(branches_rel(
                    self.opts,
                    self.local_types@,
                    len,
                    env1,
                    fields1@[from1 as int].1,
                    env2,
                    fields2@[from2 as int].1,
                    fuel as nat,
                    before,
                    first,
                    mid,
                ));
                Err(error)
            },
        }
    }
}

/// Whether `after` has every solution that `before` has, and solutions for
/// no other metavariables than `before` has metavariables.
pub open spec fn keeps_solutions<'core>(
    before: Seq<Option<Value<'core>>>,
    after: Seq<Option<Value<'core>>>,
) -> bool {
    &&& after.len() == before.len()
    &&& forall|i: int| 0 <= i < before.len() && before[i] is Some ==> #[trigger] after[i] == before[i]
}

/// Giving a metavariable a solution changes no solution that there is.
pub proof fn lemma_assign_keeps_solutions<'core>(
    opts: EvalOpts,
    meta: AbsoluteVar,
    solution: Term,
    fuel: nat,
    before: Seq<Option<Value<'core>>>,
    r: Result<(), UnifyError>,
    after: Seq<Option<Value<'core>>>,
)
    requires
        assign_rel(opts, meta, solution, fuel, before, r, after),
    ensures
        keeps_solutions(before, after),
{
}

/// Solving a metavariable a second time: the solutions stay as the first
/// time left them, and the outcome says whether the solution reads back as
/// the second term but for the names of bound variables.
pub proof fn lemma_meta_idempotence<'core>(
    opts: EvalOpts,
    meta: AbsoluteVar,
    first: Term,
    second: Term,
    fuel: nat,
    unsolved: Seq<Option<Value<'core>>>,
    once: Seq<Option<Value<'core>>>,
    r: Result<(), UnifyError>,
    twice: Seq<Option<Value<'core>>>,
)
    requires
        meta.level < unsolved.len(),
        unsolved[meta.level as int] is None,
        assign_rel(opts, meta, first, fuel, unsolved, Ok(()), once),
        assign_rel(opts, meta, second, fuel, once, r, twice),
    ensures
        twice == once,
        once[meta.level as int] is Some,
        match quote_spec(opts, once, 0, once[meta.level as int]->0, fuel) {
            Some(solution) => {
                &&& solution.alpha_eq(second) ==> r == Ok::<(), UnifyError>(())
                &&& !solution.alpha_eq(second) ==> r == mismatch()
            },
            None => r == out_of_fuel(),
        },
{
}

/// Whether a value has no solved metavariable at its head, so that forcing
/// leaves it as it is.
pub open spec fn head_forced<'core>(metas: Seq<Option<Value<'core>>>, value: Value<'core>) -> bool {
    match value {
        Value::Neutral(Head::MetaVar(var), _) => !(var.level < metas.len()
            && metas[var.level as int] is Some),
        _ => true,
    }
}

/// Unifying a solved metavariable with a value is unifying its solution
/// with that value: the two have the same outcomes, and leave the same
/// solutions. The solution is one with no solved metavariable at its head,
/// and the fuel more than one step.
pub proof fn lemma_unify_solved<'core>(
    opts: EvalOpts,
    types: Seq<Value<'core>>,
    len: usize,
    meta: AbsoluteVar,
    value: Value<'core>,
    fuel: nat,
    metas: Seq<Option<Value<'core>>>,
    r: Result<(), UnifyError>,
    after: Seq<Option<Value<'core>>>,
)
    requires
        meta.level < metas.len(),
        metas[meta.level as int] is Some,
        head_forced(metas, metas[meta.level as int]->0),
        fuel >= 2,
    ensures
        unify_rel(
            opts,
            types,
            len,
            Value::Neutral(Head::MetaVar(meta), SharedEnv::Empty),
            value,
            fuel,
            metas,
            r,
            after,
        ) == unify_rel(opts, types, len, metas[meta.level as int]->0, value, fuel, metas, r, after),
{
    let solution = metas[meta.level as int]->0;
    let rest = (fuel - 1) as nat;
    assert(apply_spine_spec(opts, metas, solution, SharedEnv::Empty, (rest - 1) as nat) == Some(
        solution,
    ));
    assert(force_spec(opts, metas, solution, (rest - 1) as nat) == Some(solution));
    assert(force_spec(opts, metas, solution, rest) == Some(solution));
    assert(force_spec(
        opts,
        metas,
        Value::Neutral(Head::MetaVar(meta), SharedEnv::Empty),
        rest,
    ) == Some(solution));
}

/// Whether a value is made of literals, primitives and variables by
/// application alone, nested at most `depth` deep: it has no metavariable,
/// no function, no record, no projection and no match in it. Two such
/// values are the same up to the names of bound variables only where they
/// are the same.
pub open spec fn applied_only(value: Value, depth: nat) -> bool
    decreases depth, 0nat, 0nat,
{
    match value {
        Value::Lit(_) | Value::Prim(_) => true,
        Value::Neutral(head, spine) => {
            &&& head is LocalVar || head is Prim
            &&& depth > 0
            &&& spine_applied_only(spine, (depth - 1) as nat)
        },
        _ => false,
    }
}

/// Whether a spine applies to arguments only, each of them as
/// [`applied_only`] says.
pub open spec fn spine_applied_only(spine: Spine, depth: nat) -> bool
    decreases depth, 1nat, spine@.len(),
{
    match spine {
        SharedEnv::Empty => true,
        SharedEnv::Entry(entry) => {
            &&& spine_applied_only(entry.rest, depth)
            &&& entry.top matches Elim::FunApp(arg) && applied_only(*arg.expr, depth)
        },
    }
}

/// Unifying two values that are made by application alone solves nothing:
/// it succeeds where they are the same, and gives a mismatch where they
/// differ, given fuel for their depth.
pub proof fn lemma_unify_applied<'core>(
    opts: EvalOpts,
    types: Seq<Value<'core>>,
    len: usize,
    lhs: Value<'core>,
    rhs: Value<'core>,
    depth: nat,
    fuel: nat,
    metas: Seq<Option<Value<'core>>>,
    r: Result<(), UnifyError>,
    after: Seq<Option<Value<'core>>>,
)
    requires
        applied_only(lhs, depth),
        applied_only(rhs, depth),
        fuel > depth,
        unify_rel(opts, types, len, lhs, rhs, fuel, metas, r, after),
    ensures
        after == metas,
        lhs == rhs ==> r == Ok::<(), UnifyError>(()),
        lhs != rhs ==> r == mismatch(),
    decreases depth, 0nat, 0nat,
{
    let rest = (fuel - 1) as nat;
    assert(force_spec(opts, metas, lhs, rest) == Some(lhs));
    assert(force_spec(opts, metas, rhs, rest) == Some(rhs));
    match (lhs, rhs) {
        (Value::Neutral(head1, spine1), Value::Neutral(head2, spine2)) => {
            if head1 == head2 {
                lemma_unify_applied_spines(
                    opts,
                    types,
                    len,
                    spine1,
                    spine2,
                    (depth - 1) as nat,
                    rest,
                    metas,
                    r,
                    after,
                );
            }
        },
        _ => {},
    }
}

/// Unifying two spines of arguments that are made by application alone
/// solves nothing: it succeeds where they are the same, and gives a
/// mismatch where they differ, given fuel for their depth.
proof fn lemma_unify_applied_spines<'core>(
    opts: EvalOpts,
    types: Seq<Value<'core>>,
    len: usize,
    spine1: Spine<'core>,
    spine2: Spine<'core>,
    depth: nat,
    fuel: nat,
    metas: Seq<Option<Value<'core>>>,
    r: Result<(), UnifyError>,
    after: Seq<Option<Value<'core>>>,
)
    requires
        spine_applied_only(spine1, depth),
        spine_applied_only(spine2, depth),
        fuel > depth,
        spines_rel(opts, types, len, spine1, spine2, fuel, metas, r, after),
    ensures
        after == metas,
        spine1 == spine2 ==> r == Ok::<(), UnifyError>(()),
        spine1 != spine2 ==> r == mismatch(),
    decreases depth, 1nat, spine1@.len(),
{
    match (spine1, spine2) {
        (SharedEnv::Entry(entry1), SharedEnv::Entry(entry2)) => {
            let (first, mid) = choose|first: Result<(), UnifyError>, mid: Seq<Option<Value<'core>>>|
             #[trigger]
                between(first, mid) && spines_rel(
                    opts,
                    types,
                    len,
                    entry1.rest,
                    entry2.rest,
                    fuel,
                    metas,
                    first,
                    mid,
                ) && (if first is Ok {
                    elims_rel(opts, types, len, entry1.top, entry2.top, fuel, mid, r, after)
                } else {
                    r == first && after == mid
                });
            lemma_unify_applied_spines(
                opts,
                types,
                len,
                entry1.rest,
                entry2.rest,
                depth,
                fuel,
                metas,
                first,
                mid,
            );
            if first is Ok {
                let arg1 = entry1.top->FunApp_0;
                let arg2 = entry2.top->FunApp_0;
                if arg1.plicity == arg2.plicity {
                    lemma_unify_applied(
                        opts,
                        types,
                        len,
                        *arg1.expr,
                        *arg2.expr,
                        depth,
                        fuel,
                        metas,
                        r,
                        after,
                    );
                }
            }
        },
        _ => {},
    }
}

/// Unifying a solved metavariable a second time, where its solution and
/// the value are made by application alone: the outcome is success where
/// the value is the solution, and a mismatch where it is another; no
/// solution changes either way.
pub proof fn lemma_unify_solved_again<'core>(
    opts: EvalOpts,
    types: Seq<Value<'core>>,
    len: usize,
    meta: AbsoluteVar,
    value: Value<'core>,
    depth: nat,
    fuel: nat,
    metas: Seq<Option<Value<'core>>>,
    r: Result<(), UnifyError>,
    after: Seq<Option<Value<'core>>>,
)
    requires
        meta.level < metas.len(),
        metas[meta.level as int] is Some,
        applied_only(metas[meta.level as int]->0, depth),
        applied_only(value, depth),
        fuel > depth + 1,
        unify_rel(
            opts,
            types,
            len,
            Value::Neutral(Head::MetaVar(meta), SharedEnv::Empty),
            value,
            fuel,
            metas,
            r,
            after,
        ),
    ensures
        after == metas,
        value == metas[meta.level as int]->0 ==> r == Ok::<(), UnifyError>(()),
        value != metas[meta.level as int]->0 ==> r == mismatch(),
{
    let solution = metas[meta.level as int]->0;
    lemma_unify_solved(opts, types, len, meta, value, fuel, metas, r, after);
    lemma_unify_applied(opts, types, len, solution, value, depth, fuel, metas, r, after);
}

/// Solving changes no solution that there is.
pub proof fn lemma_solve_keeps_solutions<'core>(
    opts: EvalOpts,
    types: Seq<Value<'core>>,
    len: usize,
    meta: AbsoluteVar,
    spine: Spine<'core>,
    rhs: Value<'core>,
    fuel: nat,
    before: Seq<Option<Value<'core>>>,
    r: Result<(), UnifyError>,
    after: Seq<Option<Value<'core>>>,
)
    requires
        solve_rel(opts, types, len, meta, spine, rhs, fuel, before, r, after),
    ensures
        keeps_solutions(before, after),
{
}

/// Unification changes no solution that there is: a metavariable goes from
/// unsolved to solved at most once.
pub proof fn lemma_unify_keeps_solutions<'core>(
    opts: EvalOpts,
    types: Seq<Value<'core>>,
    len: usize,
    lhs: Value<'core>,
    rhs: Value<'core>,
    fuel: nat,
    before: Seq<Option<Value<'core>>>,
    r: Result<(), UnifyError>,
    after: Seq<Option<Value<'core>>>,
)
    requires
        unify_rel(opts, types, len, lhs, rhs, fuel, before, r, after),
    ensures
        keeps_solutions(before, after),
    decreases fuel, 0nat, 0nat,
{
    if fuel == 0 {
        return ;
    }
    let fuel = (fuel - 1) as nat;
    match (force_spec(opts, before, lhs, fuel), force_spec(opts, before, rhs, fuel)) {
        (Some(lhs), Some(rhs)) => match (lhs, rhs) {
            (Value::Neutral(Head::Error, _), _) | (_, Value::Neutral(Head::Error, _)) => {},
            (Value::Lit(_), Value::Lit(_)) => {},
            (Value::Prim(_), Value::Prim(_)) => {},
            (Value::Neutral(head1, spine1), Value::Neutral(head2, spine2)) => {
                if head1 == head2 {
                    lemma_spines_keep_solutions(
                        opts,
                        types,
                        len,
                        spine1,
                        spine2,
                        fuel,
                        before,
                        r,
                        after,
                    );
                }
            },
            (Value::Neutral(Head::MetaVar(_), _), _) => {},
            (_, Value::Neutral(Head::MetaVar(_), _)) => {},
            (
                Value::FunType { param: param1, body: body1 },
                Value::FunType { param: param2, body: body2 },
            ) => {
                if param1.plicity == param2.plicity {
                    let (first, mid) = choose|
                        first: Result<(), UnifyError>,
                        mid: Seq<Option<Value<'core>>>,
                    | #[trigger]
                        between(first, mid) && unify_rel(
                            opts,
                            types,
                            len,
                            *param1.ty,
                            *param2.ty,
                            fuel,
                            before,
                            first,
                            mid,
                        ) && (if first is Ok {
                            closures_rel(opts, types, len, body1, body2, fuel, mid, r, after)
                        } else {
                            r == first && after == mid
                        });
                    lemma_unify_keeps_solutions(
                        opts,
                        types,
                        len,
                        *param1.ty,
                        *param2.ty,
                        fuel,
                        before,
                        first,
                        mid,
                    );
                    if first is Ok {
                        lemma_closures_keep_solutions(
                            opts,
                            types,
                            len,
                            body1,
                            body2,
                            fuel,
                            mid,
                            r,
                            after,
                        );
                    }
                }
            },
            (
                Value::FunLit { param: param1, body: body1 },
                Value::FunLit { param: param2, body: body2 },
            ) => {
                if param1.plicity == param2.plicity {
                    lemma_closures_keep_solutions(
                        opts,
                        types,
                        len,
                        body1,
                        body2,
                        fuel,
                        before,
                        r,
                        after,
                    );
                }
            },
            (Value::RecordType(telescope1), Value::RecordType(telescope2)) => {
                lemma_telescopes_keep_solutions(
                    opts,
                    types,
                    len,
                    telescope1.env,
                    telescope1.fields@,
                    telescope1.start as nat,
                    telescope2.env,
                    telescope2.fields@,
                    telescope2.start as nat,
                    fuel,
                    before,
                    r,
                    after,
                );
            },
            (Value::RecordLit(fields1), Value::RecordLit(fields2)) => {
                lemma_fields_keep_solutions(
                    opts,
                    types,
                    len,
                    fields1,
                    fields2,
                    fuel,
                    before,
                    r,
                    after,
                );
            },
            _ => {},
        },
        _ => {},
    }
}

proof fn lemma_closures_keep_solutions<'core>(
    opts: EvalOpts,
    types: Seq<Value<'core>>,
    len: usize,
    closure1: Closure<'core>,
    closure2: Closure<'core>,
    fuel: nat,
    before: Seq<Option<Value<'core>>>,
    r: Result<(), UnifyError>,
    after: Seq<Option<Value<'core>>>,
)
    requires
        closures_rel(opts, types, len, closure1, closure2, fuel, before, r, after),
    ensures
        keeps_solutions(before, after),
    decreases fuel, 1nat, 0nat,
{
    if len != usize::MAX {
        match (
            eval_spec(opts, before, closure1.env.pushed(var_value(len)), *closure1.body, fuel),
            eval_spec(opts, before, closure2.env.pushed(var_value(len)), *closure2.body, fuel),
        ) {
            (Some(body1), Some(body2)) => {
                lemma_unify_keeps_solutions(
                    opts,
                    types,
                    (len + 1) as usize,
                    body1,
                    body2,
                    fuel,
                    before,
                    r,
                    after,
                );
            },
            _ => {},
        }
    }
}

proof fn lemma_branches_keep_solutions<'core>(
    opts: EvalOpts,
    types: Seq<Value<'core>>,
    len: usize,
    env1: ValueEnv<'core>,
    branch1: Expr<'core>,
    env2: ValueEnv<'core>,
    branch2: Expr<'core>,
    fuel: nat,
    before: Seq<Option<Value<'core>>>,
    r: Result<(), UnifyError>,
    after: Seq<Option<Value<'core>>>,
)
    requires
        branches_rel(opts, types, len, env1, branch1, env2, branch2, fuel, before, r, after),
    ensures
        keeps_solutions(before, after),
    decreases fuel, 1nat, 0nat,
{
    match (eval_spec(opts, before, env1, branch1, fuel), eval_spec(opts, before, env2, branch2, fuel)) {
        (Some(value1), Some(value2)) => {
            lemma_unify_keeps_solutions(opts, types, len, value1, value2, fuel, before, r, after);
        },
        _ => {},
    }
}

proof fn lemma_cases_keep_solutions<'core>(
    opts: EvalOpts,
    types: Seq<Value<'core>>,
    len: usize,
    env1: ValueEnv<'core>,
    cases1: Seq<(u32, Expr<'core>)>,
    env2: ValueEnv<'core>,
    cases2: Seq<(u32, Expr<'core>)>,
    from: nat,
    fuel: nat,
    before: Seq<Option<Value<'core>>>,
    r: Result<(), UnifyError>,
    after: Seq<Option<Value<'core>>>,
)
    requires
        cases_rel(opts, types, len, env1, cases1, env2, cases2, from, fuel, before, r, after),
    ensures
        keeps_solutions(before, after),
    decreases fuel, 2nat, cases1.len() - from,
{
    if cases1.len() == cases2.len() && from < cases1.len() && cases1[from as int].0
        == cases2[from as int].0 {
        let (first, mid) = choose|first: Result<(), UnifyError>, mid: Seq<Option<Value<'core>>>| #[trigger]
            between(first, mid) && branches_rel(
                opts,
                types,
                len,
                env1,
                cases1[from as int].1,
                env2,
                cases2[from as int].1,
                fuel,
                before,
                first,
                mid,
            ) && (if first is Ok {
                cases_rel(
                    opts,
                    types,
                    len,
                    env1,
                    cases1,
                    env2,
                    cases2,
                    from + 1,
                    fuel,
                    mid,
                    r,
                    after,
                )
            } else {
                r == first && after == mid
            });
        lemma_branches_keep_solutions(
            opts,
            types,
            len,
            env1,
            cases1[from as int].1,
            env2,
            cases2[from as int].1,
            fuel,
            before,
            first,
            mid,
        );
        if first is Ok {
            lemma_cases_keep_solutions(
                opts,
                types,
                len,
                env1,
                cases1,
                env2,
                cases2,
                from + 1,
                fuel,
                mid,
                r,
                after,
            );
        }
    }
}

proof fn lemma_elims_keep_solutions<'core>(
    opts: EvalOpts,
    types: Seq<Value<'core>>,
    len: usize,
    elim1: Elim<'core>,
    elim2: Elim<'core>,
    fuel: nat,
    before: Seq<Option<Value<'core>>>,
    r: Result<(), UnifyError>,
    after: Seq<Option<Value<'core>>>,
)
    requires
        elims_rel(opts, types, len, elim1, elim2, fuel, before, r, after),
    ensures
        keeps_solutions(before, after),
    decreases fuel, 3nat, 0nat,
{
    match (elim1, elim2) {
        (Elim::FunApp(arg1), Elim::FunApp(arg2)) => {
            if arg1.plicity == arg2.plicity {
                lemma_unify_keeps_solutions(
                    opts,
                    types,
                    len,
                    *arg1.expr,
                    *arg2.expr,
                    fuel,
                    before,
                    r,
                    after,
                );
            }
        },
        (Elim::RecordProj(_), Elim::RecordProj(_)) => {},
        (
            Elim::MatchBool { env: env1, then_branch: then1, else_branch: else1 },
            Elim::MatchBool { env: env2, then_branch: then2, else_branch: else2 },
        ) => {
            let (first, mid) = choose|first: Result<(), UnifyError>, mid: Seq<Option<Value<'core>>>| #[trigger]
                between(first, mid) && branches_rel(
                    opts,
                    types,
                    len,
                    env1,
                    *then1,
                    env2,
                    *then2,
                    fuel,
                    before,
                    first,
                    mid,
                ) && (if first is Ok {
                    branches_rel(opts, types, len, env1, *else1, env2, *else2, fuel, mid, r, after)
                } else {
                    r == first && after == mid
                });
            lemma_branches_keep_solutions(
                opts,
                types,
                len,
                env1,
                *then1,
                env2,
                *then2,
                fuel,
                before,
                first,
                mid,
            );
            if first is Ok {
                lemma_branches_keep_solutions(
                    opts,
                    types,
                    len,
                    env1,
                    *else1,
                    env2,
                    *else2,
                    fuel,
                    mid,
                    r,
                    after,
                );
            }
        },
        (
            Elim::MatchInt { env: env1, cases: cases1, default: default1 },
            Elim::MatchInt { env: env2, cases: cases2, default: default2 },
        ) => {
            let (first, mid) = choose|first: Result<(), UnifyError>, mid: Seq<Option<Value<'core>>>| #[trigger]
                between(first, mid) && cases_rel(
                    opts,
                    types,
                    len,
                    env1,
                    cases1@,
                    env2,
                    cases2@,
                    0,
                    fuel,
                    before,
                    first,
                    mid,
                ) && (if first is Ok {
                    branches_rel(
                        opts,
                        types,
                        len,
                        env1,
                        *default1,
                        env2,
                        *default2,
                        fuel,
                        mid,
                        r,
                        after,
                    )
                } else {
                    r == first && after == mid
                });
            lemma_cases_keep_solutions(
                opts,
                types,
                len,
                env1,
                cases1@,
                env2,
                cases2@,
                0,
                fuel,
                before,
                first,
                mid,
            );
            if first is Ok {
                lemma_branches_keep_solutions(
                    opts,
                    types,
                    len,
                    env1,
                    *default1,
                    env2,
                    *default2,
                    fuel,
                    mid,
                    r,
                    after,
                );
            }
        },
        _ => {},
    }
}

proof fn lemma_spines_keep_solutions<'core>(
    opts: EvalOpts,
    types: Seq<Value<'core>>,
    len: usize,
    spine1: Spine<'core>,
    spine2: Spine<'core>,
    fuel: nat,
    before: Seq<Option<Value<'core>>>,
    r: Result<(), UnifyError>,
    after: Seq<Option<Value<'core>>>,
)
    requires
        spines_rel(opts, types, len, spine1, spine2, fuel, before, r, after),
    ensures
        keeps_solutions(before, after),
    decreases fuel, 4nat, spine1@.len(),
{
    match (spine1, spine2) {
        (SharedEnv::Entry(entry1), SharedEnv::Entry(entry2)) => {
            let (first, mid) = choose|first: Result<(), UnifyError>, mid: Seq<Option<Value<'core>>>| #[trigger]
                between(first, mid) && spines_rel(
                    opts,
                    types,
                    len,
                    entry1.rest,
                    entry2.rest,
                    fuel,
                    before,
                    first,
                    mid,
                ) && (if first is Ok {
                    elims_rel(opts, types, len, entry1.top, entry2.top, fuel, mid, r, after)
                } else {
                    r == first && after == mid
                });
            lemma_spines_keep_solutions(
                opts,
                types,
                len,
                entry1.rest,
                entry2.rest,
                fuel,
                before,
                first,
                mid,
            );
            if first is Ok {
                lemma_elims_keep_solutions(
                    opts,
                    types,
                    len,
                    entry1.top,
                    entry2.top,
                    fuel,
                    mid,
                    r,
                    after,
                );
            }
        },
        _ => {},
    }
}

proof fn lemma_fields_keep_solutions<'core>(
    opts: EvalOpts,
    types: Seq<Value<'core>>,
    len: usize,
    fields1: SharedEnv<'core, (Symbol<'core>, Value<'core>)>,
    fields2: SharedEnv<'core, (Symbol<'core>, Value<'core>)>,
    fuel: nat,
    before: Seq<Option<Value<'core>>>,
    r: Result<(), UnifyError>,
    after: Seq<Option<Value<'core>>>,
)
    requires
        fields_rel(opts, types, len, fields1, fields2, fuel, before, r, after),
    ensures
        keeps_solutions(before, after),
    decreases fuel, 4nat, fields1@.len(),
{
    match (fields1, fields2) {
        (SharedEnv::Entry(entry1), SharedEnv::Entry(entry2)) => {
            let (first, mid) = choose|first: Result<(), UnifyError>, mid: Seq<Option<Value<'core>>>| #[trigger]
                between(first, mid) && fields_rel(
                    opts,
                    types,
                    len,
                    entry1.rest,
                    entry2.rest,
                    fuel,
                    before,
                    first,
                    mid,
                ) && (if first is Ok {
                    if entry1.top.0@ != entry2.top.0@ {
                        r == mismatch() && after == mid
                    } else {
                        unify_rel(opts, types, len, entry1.top.1, entry2.top.1, fuel, mid, r, after)
                    }
                } else {
                    r == first && after == mid
                });
            lemma_fields_keep_solutions(
                opts,
                types,
                len,
                entry1.rest,
                entry2.rest,
                fuel,
                before,
                first,
                mid,
            );
            if first is Ok && entry1.top.0@ == entry2.top.0@ {
                lemma_unify_keeps_solutions(
                    opts,
                    types,
                    len,
                    entry1.top.1,
                    entry2.top.1,
                    fuel,
                    mid,
                    r,
                    after,
                );
            }
        },
        _ => {},
    }
}

proof fn lemma_telescopes_keep_solutions<'core>(
    opts: EvalOpts,
    types: Seq<Value<'core>>,
    len: usize,
    env1: ValueEnv<'core>,
    fields1: Seq<(Symbol<'core>, Expr<'core>)>,
    from1: nat,
    env2: ValueEnv<'core>,
    fields2: Seq<(Symbol<'core>, Expr<'core>)>,
    from2: nat,
    fuel: nat,
    before: Seq<Option<Value<'core>>>,
    r: Result<(), UnifyError>,
    after: Seq<Option<Value<'core>>>,
)
    requires
        telescopes_rel(
            opts,
            types,
            len,
            env1,
            fields1,
            from1,
            env2,
            fields2,
            from2,
            fuel,
            before,
            r,
            after,
        ),
    ensures
        keeps_solutions(before, after),
    decreases fuel, 4nat, fields1.len() - from1,
{
    if from1 < fields1.len() && from2 < fields2.len() && fields1[from1 as int].0@
        == fields2[from2 as int].0@ && len != usize::MAX {
        let (first, mid) = choose|first: Result<(), UnifyError>, mid: Seq<Option<Value<'core>>>| #[trigger]
            between(first, mid) && branches_rel(
                opts,
                types,
                len,
                env1,
                fields1[from1 as int].1,
                env2,
                fields2[from2 as int].1,
                fuel,
                before,
                first,
                mid,
            ) && (if first is Ok {
                telescopes_rel(
                    opts,
                    types,
                    (len + 1) as usize,
                    env1.pushed(var_value(len)),
                    fields1,
                    from1 + 1,
                    env2.pushed(var_value(len)),
                    fields2,
                    from2 + 1,
                    fuel,
                    mid,
                    r,
                    after,
                )
            } else {
                r == first && after == mid
            });
        lemma_branches_keep_solutions(
            opts,
            types,
            len,
            env1,
            fields1[from1 as int].1,
            env2,
            fields2[from2 as int].1,
            fuel,
            before,
            first,
            mid,
        );
        if first is Ok {
            lemma_telescopes_keep_solutions(
                opts,
                types,
                (len + 1) as usize,
                env1.pushed(var_value(len)),
                fields1,
                from1 + 1,
                env2.pushed(var_value(len)),
                fields2,
                from2 + 1,
                fuel,
                mid,
                r,
                after,
            );
        }
    }
}

} // verus!
