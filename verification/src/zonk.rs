//! Normal forms, and putting the solutions of metavariables in their place.

use crate::arena::arena_alloc;
use crate::env::{AbsoluteVar, EnvLen, UniqueEnv};
use crate::quote::{
    cases_model, fields_model, is_term, lemma_record_lit_model, lemma_record_type_model,
    quote_spec, var_value, QuoteEnv,
};
use crate::semantics::{eval_spec, ElimEnv, EvalOpts, Value, ValueEnv};
use crate::symbol::{name_text, Symbol};
use crate::syntax::{Expr, FunArg, FunParam, Term};
use vstd::prelude::*;

verus! {

/// What evaluation needs: what eliminations need, and the values of the
/// variables in scope.
#[derive(Debug, Copy, Clone)]
pub struct EvalEnv<'core, 'env> {
    pub elim_env: ElimEnv<'core, 'env>,
    pub local_values: ValueEnv<'core>,
}

/// The normal form of a term: its value, with `fix` unfolded where it is
/// applied, read back without unfolding `fix` further.
pub open spec fn normalize_spec<'core>(
    metas: Seq<Option<Value<'core>>>,
    env: ValueEnv<'core>,
    e: Expr<'core>,
    fuel: nat,
) -> Option<Term> {
    match eval_spec(EvalOpts { unfold_fix: true, unfold_let: true }, metas, env, e, fuel) {
        Some(value) => quote_spec(
            EvalOpts { unfold_fix: false, unfold_let: true },
            metas,
            env.level(),
            value,
            fuel,
        ),
        None => None,
    }
}

impl<'core, 'env> EvalEnv<'core, 'env> {
    pub fn new(
        bump: &'core bumpalo::Bump,
        opts: EvalOpts,
        local_values: ValueEnv<'core>,
        meta_values: &'env UniqueEnv<Option<Value<'core>>>,
    ) -> (env: Self)
        ensures
            env.elim_env.bump == bump,
            env.elim_env.opts == opts,
            env.elim_env.meta_values == meta_values,
            env.local_values == local_values,
    {
        EvalEnv { elim_env: ElimEnv::new(bump, opts, meta_values), local_values }
    }

    /// The value of `expr` in the environment of the variables in scope.
    pub fn eval(&self, expr: &Expr<'core>, fuel: usize) -> (r: Option<Value<'core>>)
        ensures
            r == eval_spec(
                self.elim_env.opts,
                self.elim_env.meta_values@,
                self.local_values,
                *expr,
                fuel as nat,
            ),
    {
        self.elim_env.eval(self.local_values, expr, fuel)
    }

    /// The normal form of `expr`.
    pub fn normalize(&self, expr: &Expr<'core>, fuel: usize) -> (r: Option<Expr<'core>>)
        ensures
            is_term(
                r,
                normalize_spec(self.elim_env.meta_values@, self.local_values, *expr, fuel as nat),
            ),
    {
        let unfolding = ElimEnv::new(
            self.elim_env.bump,
            EvalOpts { unfold_fix: true, unfold_let: true },
            self.elim_env.meta_values,
        );
        match unfolding.eval(self.local_values, expr, fuel) {
            Some(value) => {
                let quote_env = QuoteEnv::new(
                    self.elim_env.bump,
                    self.local_values.len(),
                    self.elim_env.meta_values,
                );
                quote_env.quote(&value, fuel)
            },
            None => None,
        }
    }
}

/// Whether the metavariable has a solution.
pub open spec fn is_solved(metas: Seq<Option<Value>>, var: AbsoluteVar) -> bool {
    var.level < metas.len() && metas[var.level as int] is Some
}

/// Whether the term is a solved metavariable, applied to any number of
/// arguments.
pub open spec fn solved_at_head(metas: Seq<Option<Value>>, e: Expr) -> bool
    decreases e,
{
    match e {
        Expr::MetaVar(var) => is_solved(metas, var),
        Expr::FunApp { fun, .. } => solved_at_head(metas, *fun),
        _ => false,
    }
}

/// The term with the solutions of the metavariables in their place: a
/// solved metavariable, with the arguments it is applied to, is replaced by
/// what its value reads back as; the rest of the term stays as it is.
pub open spec fn zonk_spec<'core>(
    opts: EvalOpts,
    metas: Seq<Option<Value<'core>>>,
    env: ValueEnv<'core>,
    len: usize,
    e: Expr<'core>,
    fuel: nat,
) -> Option<Term>
    decreases e, 0nat,
{
    if solved_at_head(metas, e) {
        match eval_spec(opts, metas, env, e, fuel) {
            Some(value) => quote_spec(opts, metas, len, value, fuel),
            None => None,
        }
    } else {
        match e {
            Expr::Error | Expr::Lit(_) | Expr::Prim(_) | Expr::LocalVar(_) | Expr::MetaVar(_) => Some(
                e@,
            ),
            Expr::Let { name, ty, init, body } => match zonk_spec(opts, metas, env, len, *ty, fuel) {
                Some(ty) => match zonk_spec(opts, metas, env, len, *init, fuel) {
                    Some(init) => match zonk_under_spec(opts, metas, env, len, *body, fuel) {
                        Some(body) => Some(
                            Term::Let {
                                name: name_text(name),
                                ty: Box::new(ty),
                                init: Box::new(init),
                                body: Box::new(body),
                            },
                        ),
                        None => None,
                    },
                    None => None,
                },
                None => None,
            },
            Expr::FunType { param, body } => match zonk_spec(
                opts,
                metas,
                env,
                len,
                *param.ty,
                fuel,
            ) {
                Some(ty) => match zonk_under_spec(opts, metas, env, len, *body, fuel) {
                    Some(body) => Some(
                        Term::FunType {
                            plicity: param.plicity,
                            name: name_text(param.name),
                            ty: Box::new(ty),
                            body: Box::new(body),
                        },
                    ),
                    None => None,
                },
                None => None,
            },
            Expr::FunLit { param, body } => match zonk_spec(
                opts,
                metas,
                env,
                len,
                *param.ty,
                fuel,
            ) {
                Some(ty) => match zonk_under_spec(opts, metas, env, len, *body, fuel) {
                    Some(body) => Some(
                        Term::FunLit {
                            plicity: param.plicity,
                            name: name_text(param.name),
                            ty: Box::new(ty),
                            body: Box::new(body),
                        },
                    ),
                    None => None,
                },
                None => None,
            },
            Expr::FunApp { fun, arg } => match zonk_spec(opts, metas, env, len, *fun, fuel) {
                Some(fun) => match zonk_spec(opts, metas, env, len, *arg.expr, fuel) {
                    Some(arg_term) => Some(
                        Term::FunApp {
                            fun: Box::new(fun),
                            plicity: arg.plicity,
                            arg: Box::new(arg_term),
                        },
                    ),
                    None => None,
                },
                None => None,
            },
            Expr::RecordType(fields) => match zonk_telescope_spec(
                opts,
                metas,
                env,
                len,
                e,
                0,
                Seq::empty(),
                fuel,
            ) {
                Some(fields) => Some(Term::RecordType(fields)),
                None => None,
            },
            Expr::RecordLit(fields) => match zonk_fields_spec(
                opts,
                metas,
                env,
                len,
                e,
                0,
                Seq::empty(),
                fuel,
            ) {
                Some(fields) => Some(Term::RecordLit(fields)),
                None => None,
            },
            Expr::RecordProj(scrut, label) => match zonk_spec(opts, metas, env, len, *scrut, fuel) {
                Some(scrut) => Some(Term::RecordProj(Box::new(scrut), label@)),
                None => None,
            },
            Expr::MatchBool { cond, then_branch, else_branch } => match zonk_spec(
                opts,
                metas,
                env,
                len,
                *cond,
                fuel,
            ) {
                Some(cond) => match zonk_spec(opts, metas, env, len, *then_branch, fuel) {
                    Some(then_term) => match zonk_spec(
                        opts,
                        metas,
                        env,
                        len,
                        *else_branch,
                        fuel,
                    ) {
                        Some(else_term) => Some(
                            Term::MatchBool {
                                cond: Box::new(cond),
                                then_branch: Box::new(then_term),
                                else_branch: Box::new(else_term),
                            },
                        ),
                        None => None,
                    },
                    None => None,
                },
                None => None,
            },
            Expr::MatchInt { scrut, cases, default } => match zonk_spec(
                opts,
                metas,
                env,
                len,
                *scrut,
                fuel,
            ) {
                Some(scrut) => match zonk_cases_spec(
                    opts,
                    metas,
                    env,
                    len,
                    e,
                    0,
                    Seq::empty(),
                    fuel,
                ) {
                    Some(case_terms) => match zonk_spec(opts, metas, env, len, *default, fuel) {
                        Some(default_term) => Some(
                            Term::MatchInt {
                                scrut: Box::new(scrut),
                                cases: case_terms,
                                default: Box::new(default_term),
                            },
                        ),
                        None => None,
                    },
                    None => None,
                },
                None => None,
            },
        }
    }
}

/// A term that stands under one binder, with the solutions of the
/// metavariables in their place: the variable of the binder stays a
/// variable.
pub open spec fn zonk_under_spec<'core>(
    opts: EvalOpts,
    metas: Seq<Option<Value<'core>>>,
    env: ValueEnv<'core>,
    len: usize,
    e: Expr<'core>,
    fuel: nat,
) -> Option<Term>
    decreases e, 1nat,
{
    if len == usize::MAX {
        None
    } else {
        zonk_spec(opts, metas, env.pushed(var_value(len)), (len + 1) as usize, e, fuel)
    }
}

/// The fields from `from` on of a record type `e`, with the solutions of the
/// metavariables in their place, put after `done`.
pub open spec fn zonk_telescope_spec<'core>(
    opts: EvalOpts,
    metas: Seq<Option<Value<'core>>>,
    env: ValueEnv<'core>,
    len: usize,
    e: Expr<'core>,
    from: nat,
    done: Seq<(Seq<char>, Term)>,
    fuel: nat,
) -> Option<Seq<(Seq<char>, Term)>>
    decreases e, 0nat, (if e is RecordType {
        e->RecordType_0@.len() - from
    } else {
        0
    }),
    when e is RecordType
{
    let fields = e->RecordType_0@;
    if from >= fields.len() {
        Some(done)
    } else if len == usize::MAX {
        None
    } else {
        match zonk_spec(opts, metas, env, len, fields[from as int].1, fuel) {
            Some(term) => zonk_telescope_spec(
                opts,
                metas,
                env.pushed(var_value(len)),
                (len + 1) as usize,
                e,
                from + 1,
                done.push((fields[from as int].0@, term)),
                fuel,
            ),
            None => None,
        }
    }
}

/// The fields from `from` on of a record `e`, with the solutions of the
/// metavariables in their place, put after `done`.
pub open spec fn zonk_fields_spec<'core>(
    opts: EvalOpts,
    metas: Seq<Option<Value<'core>>>,
    env: ValueEnv<'core>,
    len: usize,
    e: Expr<'core>,
    from: nat,
    done: Seq<(Seq<char>, Term)>,
    fuel: nat,
) -> Option<Seq<(Seq<char>, Term)>>
    decreases e, 0nat, (if e is RecordLit {
        e->RecordLit_0@.len() - from
    } else {
        0
    }),
    when e is RecordLit
{
    let fields = e->RecordLit_0@;
    if from >= fields.len() {
        Some(done)
    } else {
        match zonk_spec(opts, metas, env, len, fields[from as int].1, fuel) {
            Some(term) => zonk_fields_spec(
                opts,
                metas,
                env,
                len,
                e,
                from + 1,
                done.push((fields[from as int].0@, term)),
                fuel,
            ),
            None => None,
        }
    }
}

/// The cases from `from` on of a match on an integer `e`, with the solutions
/// of the metavariables in their place, put after `done`.
pub open spec fn zonk_cases_spec<'core>(
    opts: EvalOpts,
    metas: Seq<Option<Value<'core>>>,
    env: ValueEnv<'core>,
    len: usize,
    e: Expr<'core>,
    from: nat,
    done: Seq<(u32, Term)>,
    fuel: nat,
) -> Option<Seq<(u32, Term)>>
    decreases e, 0nat, (if e is MatchInt {
        e->cases@.len() - from
    } else {
        0
    }),
    when e is MatchInt
{
    let cases = e->cases@;
    if from >= cases.len() {
        Some(done)
    } else {
        match zonk_spec(opts, metas, env, len, cases[from as int].1, fuel) {
            Some(term) => zonk_cases_spec(
                opts,
                metas,
                env,
                len,
                e,
                from + 1,
                done.push((cases[from as int].0, term)),
                fuel,
            ),
            None => None,
        }
    }
}

/// What putting solutions in place needs: what eliminations need, and the
/// values of the variables in scope.
#[derive(Debug, Copy, Clone)]
pub struct ZonkEnv<'core, 'env> {
    pub elim_env: ElimEnv<'core, 'env>,
    pub local_values: ValueEnv<'core>,
}

impl<'core, 'env> ZonkEnv<'core, 'env> {
    pub fn new(
        bump: &'core bumpalo::Bump,
        local_values: ValueEnv<'core>,
        meta_values: &'env UniqueEnv<Option<Value<'core>>>,
    ) -> (env: Self)
        ensures
            env.elim_env.bump == bump,
            env.elim_env.opts == (EvalOpts { unfold_fix: false, unfold_let: true }),
            env.elim_env.meta_values == meta_values,
            env.local_values == local_values,
    {
        ZonkEnv { elim_env: ElimEnv::new(bump, EvalOpts::default(), meta_values), local_values }
    }

    /// `expr` with the solutions of the metavariables in their place.
    pub fn zonk(&self, expr: &Expr<'core>, fuel: usize) -> (r: Option<Expr<'core>>)
        ensures
            is_term(
                r,
                zonk_spec(
                    self.elim_env.opts,
                    self.elim_env.meta_values@,
                    self.local_values,
                    self.local_values.level(),
                    *expr,
                    fuel as nat,
                ),
            ),
    {
        self.zonk_at(self.local_values, self.local_values.len().len, expr, fuel)
    }

    /// Whether `expr` is a solved metavariable, applied to any number of
    /// arguments.
    fn head_is_solved(&self, expr: &Expr<'core>) -> (r: bool)
        ensures
            r == solved_at_head(self.elim_env.meta_values@, *expr),
        decreases *expr,
    {
        match *expr {
            Expr::MetaVar(var) => match self.elim_env.meta_values.get_absolute(var) {
                Some(Some(_)) => true,
                _ => false,
            },
            Expr::FunApp { fun, .. } => self.head_is_solved(fun),
            _ => false,
        }
    }

    /// `expr`, which stands where the variables have the values `env` and
    /// `len` variables are in scope, with the solutions of the metavariables
    /// in their place.
    #[verifier::loop_isolation(false)]
    fn zonk_at(&self, env: ValueEnv<'core>, len: usize, expr: &Expr<'core>, fuel: usize) -> (r:
        Option<Expr<'core>>)
        ensures
            is_term(
                r,
                zonk_spec(
                    self.elim_env.opts,
                    self.elim_env.meta_values@,
                    env,
                    len,
                    *expr,
                    fuel as nat,
                ),
            ),
        decreases *expr, 0nat,
    {
        let bump = self.elim_env.bump;
        if self.head_is_solved(expr) {
            return match self.elim_env.eval(env, expr, fuel) {
                Some(value) => {
                    let quote_env = QuoteEnv {
                        elim_env: self.elim_env,
                        local_len: EnvLen { len },
                    };
                    quote_env.quote(&value, fuel)
                },
                None => None,
            };
        }
        match *expr {
            Expr::Error | Expr::Lit(_) | Expr::Prim(_) | Expr::LocalVar(_) | Expr::MetaVar(_) => Some(
                *expr,
            ),
            Expr::Let { name, ty, init, body } => {
                let ty = match self.zonk_at(env, len, ty, fuel) {
                    Some(ty) => ty,
                    None => {
                        return None;
                    },
                };
                let init = match self.zonk_at(env, len, init, fuel) {
                    Some(init) => init,
                    None => {
                        return None;
                    },
                };
                let body = match self.zonk_under(env, len, body, fuel) {
                    Some(body) => body,
                    None => {
                        return None;
                    },
                };
                Some(
                    Expr::Let {
                        name,
                        ty: arena_alloc(bump, ty),
                        init: arena_alloc(bump, init),
                        body: arena_alloc(bump, body),
                    },
                )
            },
            Expr::FunType { param, body } => {
                let ty = match self.zonk_at(env, len, param.ty, fuel) {
                    Some(ty) => ty,
                    None => {
                        return None;
                    },
                };
                let body = match self.zonk_under(env, len, body, fuel) {
                    Some(body) => body,
                    None => {
                        return None;
                    },
                };
                let ty = arena_alloc(bump, ty);
                Some(
                    Expr::FunType {
                        param: FunParam::new(param.plicity, param.name, ty),
                        body: arena_alloc(bump, body),
                    },
                )
            },
            Expr::FunLit { param, body } => {
                let ty = match self.zonk_at(env, len, param.ty, fuel) {
                    Some(ty) => ty,
                    None => {
                        return None;
                    },
                };
                let body = match self.zonk_under(env, len, body, fuel) {
                    Some(body) => body,
                    None => {
                        return None;
                    },
                };
                let ty = arena_alloc(bump, ty);
                Some(
                    Expr::FunLit {
                        param: FunParam::new(param.plicity, param.name, ty),
                        body: arena_alloc(bump, body),
                    },
                )
            },
            Expr::FunApp { fun, arg } => {
                let fun = match self.zonk_at(env, len, fun, fuel) {
                    Some(fun) => fun,
                    None => {
                        return None;
                    },
                };
                let arg_expr = match self.zonk_at(env, len, arg.expr, fuel) {
                    Some(arg_expr) => arg_expr,
                    None => {
                        return None;
                    },
                };
                let arg_expr = arena_alloc(bump, arg_expr);
                Some(
                    Expr::FunApp {
                        fun: arena_alloc(bump, fun),
                        arg: FunArg::new(arg.plicity, arg_expr),
                    },
                )
            },
            Expr::RecordType(fields) => {
                let mut done: Vec<(Symbol<'core>, Expr<'core>)> = Vec::new();
                let mut inner = env;
                let mut depth = len;
                let mut i: usize = 0;
                proof {
                    assert(fields_model(done@) =~= Seq::empty());
                }
                while i < fields.len()
                    invariant
                        i <= fields@.len(),
                        zonk_telescope_spec(
                            self.elim_env.opts,
                            self.elim_env.meta_values@,
                            inner,
                            depth,
                            *expr,
                            i as nat,
                            fields_model(done@),
                            fuel as nat,
                        ) == zonk_telescope_spec(
                            self.elim_env.opts,
                            self.elim_env.meta_values@,
                            env,
                            len,
                            *expr,
                            0,
                            Seq::empty(),
                            fuel as nat,
                        ),
                    decreases fields@.len() - i,
                {
                    if depth == usize::MAX {
                        return None;
                    }
                    proof {
                        assert(decreases_to!(*fields => fields[i as int]));
                    }
                    let ghost before = fields_model(done@);
                    let field = match self.zonk_at(inner, depth, &fields[i].1, fuel) {
                        Some(field) => field,
                        None => {
                            return None;
                        },
                    };
                    done.push((fields[i].0, field));
                    assert(fields_model(done@) =~= before.push((fields@[i as int].0@, field@)));
                    inner.push(bump, Value::local_var(AbsoluteVar { level: depth }));
                    depth += 1;
                    i += 1;
                }
                let fields = arena_alloc(bump, done);
                proof {
                    lemma_record_type_model(fields);
                }
                Some(Expr::RecordType(fields))
            },
            Expr::RecordLit(fields) => {
                let mut done: Vec<(Symbol<'core>, Expr<'core>)> = Vec::new();
                let mut i: usize = 0;
                proof {
                    assert(fields_model(done@) =~= Seq::empty());
                }
                while i < fields.len()
                    invariant
                        i <= fields@.len(),
                        zonk_fields_spec(
                            self.elim_env.opts,
                            self.elim_env.meta_values@,
                            env,
                            len,
                            *expr,
                            i as nat,
                            fields_model(done@),
                            fuel as nat,
                        ) == zonk_fields_spec(
                            self.elim_env.opts,
                            self.elim_env.meta_values@,
                            env,
                            len,
                            *expr,
                            0,
                            Seq::empty(),
                            fuel as nat,
                        ),
                    decreases fields@.len() - i,
                {
                    proof {
                        assert(decreases_to!(*fields => fields[i as int]));
                    }
                    let ghost before = fields_model(done@);
                    let field = match self.zonk_at(env, len, &fields[i].1, fuel) {
                        Some(field) => field,
                        None => {
                            return None;
                        },
                    };
                    done.push((fields[i].0, field));
                    assert(fields_model(done@) =~= before.push((fields@[i as int].0@, field@)));
                    i += 1;
                }
                let fields = arena_alloc(bump, done);
                proof {
                    lemma_record_lit_model(fields);
                }
                Some(Expr::RecordLit(fields))
            },
            Expr::RecordProj(scrut, label) => match self.zonk_at(env, len, scrut, fuel) {
                Some(scrut) => Some(Expr::RecordProj(arena_alloc(bump, scrut), label)),
                None => None,
            },
            Expr::MatchBool { cond, then_branch, else_branch } => {
                let cond = match self.zonk_at(env, len, cond, fuel) {
                    Some(cond) => cond,
                    None => {
                        return None;
                    },
                };
                let then_branch = match self.zonk_at(env, len, then_branch, fuel) {
                    Some(branch) => branch,
                    None => {
                        return None;
                    },
                };
                let else_branch = match self.zonk_at(env, len, else_branch, fuel) {
                    Some(branch) => branch,
                    None => {
                        return None;
                    },
                };
                Some(
                    Expr::MatchBool {
                        cond: arena_alloc(bump, cond),
                        then_branch: arena_alloc(bump, then_branch),
                        else_branch: arena_alloc(bump, else_branch),
                    },
                )
            },
            Expr::MatchInt { scrut, cases, default } => {
                let scrut = match self.zonk_at(env, len, scrut, fuel) {
                    Some(scrut) => scrut,
                    None => {
                        return None;
                    },
                };
                let mut done: Vec<(u32, Expr<'core>)> = Vec::new();
                let mut i: usize = 0;
                proof {
                    assert(cases_model(done@) =~= Seq::empty());
                }
                while i < cases.len()
                    invariant
                        i <= cases@.len(),
                        zonk_cases_spec(
                            self.elim_env.opts,
                            self.elim_env.meta_values@,
                            env,
                            len,
                            *expr,
                            i as nat,
                            cases_model(done@),
                            fuel as nat,
                        ) == zonk_cases_spec(
                            self.elim_env.opts,
                            self.elim_env.meta_values@,
                            env,
                            len,
                            *expr,
                            0,
                            Seq::empty(),
                            fuel as nat,
                        ),
                    decreases cases@.len() - i,
                {
                    proof {
                        assert(decreases_to!(*cases => cases[i as int]));
                    }
                    let ghost before = cases_model(done@);
                    let rhs = match self.zonk_at(env, len, &cases[i].1, fuel) {
                        Some(rhs) => rhs,
                        None => {
                            return None;
                        },
                    };
                    done.push((cases[i].0, rhs));
                    assert(cases_model(done@) =~= before.push((cases@[i as int].0, rhs@)));
                    i += 1;
                }
                let default = match self.zonk_at(env, len, default, fuel) {
                    Some(default) => default,
                    None => {
                        return None;
                    },
                };
                let r = Expr::MatchInt {
                    scrut: arena_alloc(bump, scrut),
                    cases: arena_alloc(bump, done),
                    default: arena_alloc(bump, default),
                };
                assert(r@->cases =~= cases_model(done@));
                Some(r)
            },
        }
    }

    /// `expr`, which stands under one binder, with the solutions of the
    /// metavariables in their place.
    fn zonk_under(&self, env: ValueEnv<'core>, len: usize, expr: &Expr<'core>, fuel: usize) -> (r:
        Option<Expr<'core>>)
        ensures
            is_term(
                r,
                zonk_under_spec(
                    self.elim_env.opts,
                    self.elim_env.meta_values@,
                    env,
                    len,
                    *expr,
                    fuel as nat,
                ),
            ),
        decreases *expr, 1nat,
    {
        if len == usize::MAX {
            return None;
        }
        let mut inner = env;
        inner.push(self.elim_env.bump, Value::local_var(AbsoluteVar { level: len }));
        self.zonk_at(inner, len + 1, expr, fuel)
    }
}

} // verus!
