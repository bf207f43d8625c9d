//! Reading values back as terms.
//!
//! A value is read back at a depth: the number of variables in scope where
//! the term is to stand. Levels become indices; a closure is applied to the
//! variable that its binder binds at that depth, and the result is read
//! back one level deeper.

use crate::arena::arena_alloc;
use crate::env::{level_to_index, AbsoluteVar, EnvLen, SharedEnv, UniqueEnv};
use crate::prim::Prim;
use crate::semantics::{
    eval_spec, force_spec, Closure, Elim, ElimEnv, EvalOpts, Head, Spine, Telescope, Value,
    ValueEnv,
};
use crate::symbol::{name_text, Symbol};
use crate::syntax::{Expr, FunArg, FunParam, Term};
use vstd::prelude::*;

verus! {

/// The variable of level `level`, not applied to anything.
pub open spec fn var_value<'core>(level: usize) -> Value<'core> {
    Value::Neutral(Head::LocalVar(AbsoluteVar { level }), SharedEnv::Empty)
}

/// The head of a neutral value, read back at depth `len`. A variable that
/// is not in scope at that depth reads back as the error term.
pub open spec fn quote_head(len: usize, head: Head) -> Term {
    match head {
        Head::LocalVar(var) => match level_to_index(len as nat, var.level as nat) {
            Some(index) => Term::LocalVar(index),
            None => Term::Error,
        },
        Head::MetaVar(var) => Term::MetaVar(var.level as nat),
        Head::Prim(prim) => Term::Prim(prim),
        Head::Error => Term::Error,
    }
}

/// The value read back at depth `len`, with the solutions of the
/// metavariables in their place; `None` where that needs more than `fuel`
/// nested steps, or a depth beyond the machine word.
pub open spec fn quote_spec<'core>(
    opts: EvalOpts,
    metas: Seq<Option<Value<'core>>>,
    len: usize,
    value: Value<'core>,
    fuel: nat,
) -> Option<Term>
    decreases fuel, 0nat, 0nat,
{
    if fuel == 0 {
        None
    } else {
        let fuel = (fuel - 1) as nat;
        match force_spec(opts, metas, value, fuel) {
            None => None,
            Some(Value::Lit(lit)) => Some(Term::Lit(lit)),
            Some(Value::Prim(prim)) => Some(Term::Prim(prim)),
            Some(Value::Neutral(head, spine)) => quote_spine_spec(
                opts,
                metas,
                len,
                head,
                spine,
                fuel,
            ),
            Some(Value::FunType { param, body }) => match quote_spec(
                opts,
                metas,
                len,
                *param.ty,
                fuel,
            ) {
                Some(ty) => match quote_closure_spec(opts, metas, len, body, fuel) {
                    Some(body) => Some(
                        Term::FunType {
                            plicity: param.plicity,
                            name: name_text(param.name),
                            ty: Box::new(ty),
                            body: Box::new(body),
                        },
                    ),
                    None => None,
                },
                None => None,
            },
            Some(Value::FunLit { param, body }) => match quote_spec(
                opts,
                metas,
                len,
                *param.ty,
                fuel,
            ) {
                Some(ty) => match quote_closure_spec(opts, metas, len, body, fuel) {
                    Some(body) => Some(
                        Term::FunLit {
                            plicity: param.plicity,
                            name: name_text(param.name),
                            ty: Box::new(ty),
                            body: Box::new(body),
                        },
                    ),
                    None => None,
                },
                None => None,
            },
            Some(Value::RecordType(telescope)) => match quote_telescope_spec(
                opts,
                metas,
                len,
                telescope.env,
                telescope.fields@,
                telescope.start as nat,
                Seq::empty(),
                fuel,
            ) {
                Some(fields) => Some(Term::RecordType(fields)),
                None => None,
            },
            Some(Value::RecordLit(fields)) => match quote_fields_spec(
                opts,
                metas,
                len,
                fields,
                fuel,
            ) {
                Some(fields) => Some(Term::RecordLit(fields)),
                None => None,
            },
        }
    }
}

/// The body of a closure, read back under its binder: the closure applied to
/// the variable of level `len`, read back at depth `len + 1`.
pub open spec fn quote_closure_spec<'core>(
    opts: EvalOpts,
    metas: Seq<Option<Value<'core>>>,
    len: usize,
    closure: Closure<'core>,
    fuel: nat,
) -> Option<Term>
    decreases fuel, 1nat, 0nat,
{
    if len == usize::MAX {
        None
    } else {
        match eval_spec(opts, metas, closure.env.pushed(var_value(len)), *closure.body, fuel) {
            Some(body) => quote_spec(opts, metas, (len + 1) as usize, body, fuel),
            None => None,
        }
    }
}

/// A neutral value read back: its head, with the eliminations of its spine
/// around it, the first applied innermost.
pub open spec fn quote_spine_spec<'core>(
    opts: EvalOpts,
    metas: Seq<Option<Value<'core>>>,
    len: usize,
    head: Head,
    spine: Spine<'core>,
    fuel: nat,
) -> Option<Term>
    decreases fuel, 3nat, spine@.len(),
{
    match spine {
        SharedEnv::Empty => Some(quote_head(len, head)),
        SharedEnv::Entry(entry) => match quote_spine_spec(
            opts,
            metas,
            len,
            head,
            entry.rest,
            fuel,
        ) {
            Some(inner) => match entry.top {
                Elim::FunApp(arg) => match quote_spec(opts, metas, len, *arg.expr, fuel) {
                    Some(arg_term) => Some(
                        Term::FunApp {
                            fun: Box::new(inner),
                            plicity: arg.plicity,
                            arg: Box::new(arg_term),
                        },
                    ),
                    None => None,
                },
                Elim::RecordProj(label) => Some(Term::RecordProj(Box::new(inner), label@)),
                Elim::MatchBool { env, then_branch, else_branch } => match quote_branch_spec(
                    opts,
                    metas,
                    len,
                    env,
                    *then_branch,
                    fuel,
                ) {
                    Some(then_term) => match quote_branch_spec(
                        opts,
                        metas,
                        len,
                        env,
                        *else_branch,
                        fuel,
                    ) {
                        Some(else_term) => Some(
                            Term::MatchBool {
                                cond: Box::new(inner),
                                then_branch: Box::new(then_term),
                                else_branch: Box::new(else_term),
                            },
                        ),
                        None => None,
                    },
                    None => None,
                },
                Elim::MatchInt { env, cases, default } => match quote_cases_spec(
                    opts,
                    metas,
                    len,
                    env,
                    cases@,
                    0,
                    Seq::empty(),
                    fuel,
                ) {
                    Some(case_terms) => match quote_branch_spec(
                        opts,
                        metas,
                        len,
                        env,
                        *default,
                        fuel,
                    ) {
                        Some(default_term) => Some(
                            Term::MatchInt {
                                scrut: Box::new(inner),
                                cases: case_terms,
                                default: Box::new(default_term),
                            },
                        ),
                        None => None,
                    },
                    None => None,
                },
            },
            None => None,
        },
    }
}

/// A branch of a match that waits: its value in the environment of the
/// match, read back.
pub open spec fn quote_branch_spec<'core>(
    opts: EvalOpts,
    metas: Seq<Option<Value<'core>>>,
    len: usize,
    env: ValueEnv<'core>,
    branch: Expr<'core>,
    fuel: nat,
) -> Option<Term>
    decreases fuel, 1nat, 0nat,
{
    match eval_spec(opts, metas, env, branch, fuel) {
        Some(value) => quote_spec(opts, metas, len, value, fuel),
        None => None,
    }
}

/// The cases of a match that waits, from `from` on, read back and put after
/// `done`.
pub open spec fn quote_cases_spec<'core>(
    opts: EvalOpts,
    metas: Seq<Option<Value<'core>>>,
    len: usize,
    env: ValueEnv<'core>,
    cases: Seq<(u32, Expr<'core>)>,
    from: nat,
    done: Seq<(u32, Term)>,
    fuel: nat,
) -> Option<Seq<(u32, Term)>>
    decreases fuel, 2nat, cases.len() - from,
{
    if from >= cases.len() {
        Some(done)
    } else {
        match quote_branch_spec(opts, metas, len, env, cases[from as int].1, fuel) {
            Some(term) => quote_cases_spec(
                opts,
                metas,
                len,
                env,
                cases,
                from + 1,
                done.push((cases[from as int].0, term)),
                fuel,
            ),
            None => None,
        }
    }
}

/// The fields of a record, read back, the first first.
pub open spec fn quote_fields_spec<'core>(
    opts: EvalOpts,
    metas: Seq<Option<Value<'core>>>,
    len: usize,
    fields: SharedEnv<'core, (Symbol<'core>, Value<'core>)>,
    fuel: nat,
) -> Option<Seq<(Seq<char>, Term)>>
    decreases fuel, 3nat, fields@.len(),
{
    match fields {
        SharedEnv::Empty => Some(Seq::empty()),
        SharedEnv::Entry(entry) => match quote_fields_spec(opts, metas, len, entry.rest, fuel) {
            Some(before) => match quote_spec(opts, metas, len, entry.top.1, fuel) {
                Some(term) => Some(before.push((entry.top.0@, term))),
                None => None,
            },
            None => None,
        },
    }
}

/// The fields of a telescope from `from` on, read back and put after
/// `done`: the type of each field in the scope of the fields before it, each
/// of which is bound to the variable of its level.
pub open spec fn quote_telescope_spec<'core>(
    opts: EvalOpts,
    metas: Seq<Option<Value<'core>>>,
    len: usize,
    env: ValueEnv<'core>,
    fields: Seq<(Symbol<'core>, Expr<'core>)>,
    from: nat,
    done: Seq<(Seq<char>, Term)>,
    fuel: nat,
) -> Option<Seq<(Seq<char>, Term)>>
    decreases fuel, 3nat, fields.len() - from,
{
    if from >= fields.len() {
        Some(done)
    } else if len == usize::MAX {
        None
    } else {
        let field = fields[from as int];
        match eval_spec(opts, metas, env, field.1, fuel) {
            Some(ty) => match quote_spec(opts, metas, len, ty, fuel) {
                Some(term) => quote_telescope_spec(
                    opts,
                    metas,
                    (len + 1) as usize,
                    env.pushed(var_value(len)),
                    fields,
                    from + 1,
                    done.push((field.0@, term)),
                    fuel,
                ),
                None => None,
            },
            None => None,
        }
    }
}

/// The models of labelled terms.
pub open spec fn fields_model(fields: Seq<(Symbol, Expr)>) -> Seq<(Seq<char>, Term)> {
    Seq::new(fields.len(), |i: int| (fields[i].0@, fields[i].1@))
}

/// The models of the cases of a match on an integer.
pub open spec fn cases_model(cases: Seq<(u32, Expr)>) -> Seq<(u32, Term)> {
    Seq::new(cases.len(), |i: int| (cases[i].0, cases[i].1@))
}

/// Whether the term `r`, if any, is a term of model `t`, if any.
pub open spec fn is_term(r: Option<Expr>, t: Option<Term>) -> bool {
    match (r, t) {
        (Some(e), Some(t)) => e@ == t,
        (None, None) => true,
        _ => false,
    }
}

/// A record type with the given fields has them as its model.
pub proof fn lemma_record_type_model(fields: &Vec<(Symbol, Expr)>)
    ensures
        Expr::RecordType(fields)@ == Term::RecordType(fields_model(fields@)),
{
    assert(Expr::RecordType(fields)@->RecordType_0 =~= fields_model(fields@));
}

/// A record with the given fields has them as its model.
pub proof fn lemma_record_lit_model(fields: &Vec<(Symbol, Expr)>)
    ensures
        Expr::RecordLit(fields)@ == Term::RecordLit(fields_model(fields@)),
{
    assert(Expr::RecordLit(fields)@->RecordLit_0 =~= fields_model(fields@));
}

/// What reading back needs: what eliminations need, and the number of
/// variables in scope.
#[derive(Debug, Copy, Clone)]
pub struct QuoteEnv<'core, 'env> {
    pub elim_env: ElimEnv<'core, 'env>,
    pub local_len: EnvLen,
}

impl<'core, 'env> QuoteEnv<'core, 'env> {
    pub fn new(
        bump: &'core bumpalo::Bump,
        local_len: EnvLen,
        meta_values: &'env UniqueEnv<Option<Value<'core>>>,
    ) -> (env: Self)
        ensures
            env.elim_env.bump == bump,
            env.elim_env.opts == (EvalOpts { unfold_fix: false, unfold_let: true }),
            env.elim_env.meta_values == meta_values,
            env.local_len == local_len,
    {
        QuoteEnv { elim_env: ElimEnv::new(bump, EvalOpts::default(), meta_values), local_len }
    }

    /// The value, read back where `local_len` variables are in scope.
    pub fn quote(&self, value: &Value<'core>, fuel: usize) -> (r: Option<Expr<'core>>)
        ensures
            is_term(
                r,
                quote_spec(
                    self.elim_env.opts,
                    self.elim_env.meta_values@,
                    self.local_len.len,
                    *value,
                    fuel as nat,
                ),
            ),
    {
        self.quote_at(self.local_len.len, value, fuel)
    }

    /// The value, read back where `len` variables are in scope.
    pub fn quote_at(&self, len: usize, value: &Value<'core>, fuel: usize) -> (r: Option<
        Expr<'core>,
    >)
        ensures
            is_term(
                r,
                quote_spec(self.elim_env.opts, self.elim_env.meta_values@, len, *value, fuel as nat),
            ),
        decreases fuel, 0nat, 0nat,
    {
        if fuel == 0 {
            return None;
        }
        let fuel = fuel - 1;
        let value = match self.elim_env.force(*value, fuel) {
            Some(value) => value,
            None => {
                return None;
            },
        };
        match value {
            Value::Lit(lit) => Some(Expr::Lit(lit)),
            Value::Prim(prim) => Some(Expr::Prim(prim)),
            Value::Neutral(head, spine) => self.quote_spine(len, head, spine, fuel),
            Value::FunType { param, body } => {
                let ty = match self.quote_at(len, param.ty, fuel) {
                    Some(ty) => ty,
                    None => {
                        return None;
                    },
                };
                let body = match self.quote_closure(len, &body, fuel) {
                    Some(body) => body,
                    None => {
                        return None;
                    },
                };
                let ty = arena_alloc(self.elim_env.bump, ty);
                let body = arena_alloc(self.elim_env.bump, body);
                Some(Expr::FunType { param: FunParam::new(param.plicity, param.name, ty), body })
            },
            Value::FunLit { param, body } => {
                let ty = match self.quote_at(len, param.ty, fuel) {
                    Some(ty) => ty,
                    None => {
                        return None;
                    },
                };
                let body = match self.quote_closure(len, &body, fuel) {
                    Some(body) => body,
                    None => {
                        return None;
                    },
                };
                let ty = arena_alloc(self.elim_env.bump, ty);
                let body = arena_alloc(self.elim_env.bump, body);
                Some(Expr::FunLit { param: FunParam::new(param.plicity, param.name, ty), body })
            },
            Value::RecordType(telescope) => self.quote_telescope(len, &telescope, fuel),
            Value::RecordLit(fields) => {
                let mut out: Vec<(Symbol<'core>, Expr<'core>)> = Vec::new();
                if self.quote_fields(len, fields, &mut out, fuel) {
                    let fields = arena_alloc(self.elim_env.bump, out);
                    proof {
                        lemma_record_lit_model(fields);
                        assert(fields_model(Seq::empty()) + fields_model(fields@) =~= fields_model(
                            fields@,
                        ));
                    }
                    Some(Expr::RecordLit(fields))
                } else {
                    None
                }
            },
        }
    }

    /// The body of a closure, read back under its binder.
    fn quote_closure(&self, len: usize, closure: &Closure<'core>, fuel: usize) -> (r: Option<
        Expr<'core>,
    >)
        ensures
            is_term(
                r,
                quote_closure_spec(
                    self.elim_env.opts,
                    self.elim_env.meta_values@,
                    len,
                    *closure,
                    fuel as nat,
                ),
            ),
        decreases fuel, 1nat, 0nat,
    {
        if len == usize::MAX {
            return None;
        }
        let mut env = closure.env;
        env.push(self.elim_env.bump, Value::local_var(AbsoluteVar { level: len }));
        match self.elim_env.eval(env, closure.body, fuel) {
            Some(body) => self.quote_at(len + 1, &body, fuel),
            None => None,
        }
    }

    /// The head of a neutral value, read back.
    fn quote_head(len: usize, head: Head) -> (r: Expr<'core>)
        ensures
            r@ == quote_head(len, head),
    {
        match head {
            Head::LocalVar(var) => match (EnvLen { len }).absolute_to_relative(var) {
                Some(index) => Expr::LocalVar(index),
                None => Expr::Error,
            },
            Head::MetaVar(var) => Expr::MetaVar(var),
            Head::Prim(prim) => Expr::Prim(prim),
            Head::Error => Expr::Error,
        }
    }

    /// A neutral value, read back.
    fn quote_spine(&self, len: usize, head: Head, spine: Spine<'core>, fuel: usize) -> (r: Option<
        Expr<'core>,
    >)
        ensures
            is_term(
                r,
                quote_spine_spec(
                    self.elim_env.opts,
                    self.elim_env.meta_values@,
                    len,
                    head,
                    spine,
                    fuel as nat,
                ),
            ),
        decreases fuel, 3nat, spine@.len(),
    {
        let entry = match spine {
            SharedEnv::Empty => {
                return Some(Self::quote_head(len, head));
            },
            SharedEnv::Entry(entry) => entry,
        };
        let inner = match self.quote_spine(len, head, entry.rest, fuel) {
            Some(inner) => inner,
            None => {
                return None;
            },
        };
        let inner = arena_alloc(self.elim_env.bump, inner);
        match entry.top {
            Elim::FunApp(arg) => match self.quote_at(len, arg.expr, fuel) {
                Some(arg_expr) => {
                    let arg_expr = arena_alloc(self.elim_env.bump, arg_expr);
                    Some(Expr::FunApp { fun: inner, arg: FunArg::new(arg.plicity, arg_expr) })
                },
                None => None,
            },
            Elim::RecordProj(label) => Some(Expr::RecordProj(inner, label)),
            Elim::MatchBool { env, then_branch, else_branch } => {
                let then_expr = match self.quote_branch(len, env, then_branch, fuel) {
                    Some(expr) => expr,
                    None => {
                        return None;
                    },
                };
                let else_expr = match self.quote_branch(len, env, else_branch, fuel) {
                    Some(expr) => expr,
                    None => {
                        return None;
                    },
                };
                Some(
                    Expr::MatchBool {
                        cond: inner,
                        then_branch: arena_alloc(self.elim_env.bump, then_expr),
                        else_branch: arena_alloc(self.elim_env.bump, else_expr),
                    },
                )
            },
            Elim::MatchInt { env, cases, default } => {
                let case_exprs = match self.quote_cases(len, env, cases, fuel) {
                    Some(cases) => cases,
                    None => {
                        return None;
                    },
                };
                let default_expr = match self.quote_branch(len, env, default, fuel) {
                    Some(expr) => expr,
                    None => {
                        return None;
                    },
                };
                let r = Expr::MatchInt {
                    scrut: inner,
                    cases: arena_alloc(self.elim_env.bump, case_exprs),
                    default: arena_alloc(self.elim_env.bump, default_expr),
                };
                assert(r@->cases =~= cases_model(case_exprs@));
                Some(r)
            },
        }
    }

    /// A branch of a match that waits, read back.
    fn quote_branch(
        &self,
        len: usize,
        env: ValueEnv<'core>,
        branch: &Expr<'core>,
        fuel: usize,
    ) -> (r: Option<Expr<'core>>)
        ensures
            is_term(
                r,
                quote_branch_spec(
                    self.elim_env.opts,
                    self.elim_env.meta_values@,
                    len,
                    env,
                    *branch,
                    fuel as nat,
                ),
            ),
        decreases fuel, 1nat, 0nat,
    {
        match self.elim_env.eval(env, branch, fuel) {
            Some(value) => self.quote_at(len, &value, fuel),
            None => None,
        }
    }

    /// The cases of a match that waits, read back.
    #[verifier::loop_isolation(false)]
    fn quote_cases(
        &self,
        len: usize,
        env: ValueEnv<'core>,
        cases: &Vec<(u32, Expr<'core>)>,
        fuel: usize,
    ) -> (r: Option<Vec<(u32, Expr<'core>)>>)
        ensures
            match quote_cases_spec(
                self.elim_env.opts,
                self.elim_env.meta_values@,
                len,
                env,
                cases@,
                0,
                Seq::empty(),
                fuel as nat,
            ) {
                Some(terms) => r is Some && cases_model(r->0@) == terms,
                None => r is None,
            },
        decreases fuel, 2nat, cases@.len(),
    {
        let mut done: Vec<(u32, Expr<'core>)> = Vec::new();
        let mut i: usize = 0;
        proof {
            assert(cases_model(done@) =~= Seq::empty());
        }
        while i < cases.len()
            invariant
                i <= cases@.len(),
                quote_cases_spec(
                    self.elim_env.opts,
                    self.elim_env.meta_values@,
                    len,
                    env,
                    cases@,
                    i as nat,
                    cases_model(done@),
                    fuel as nat,
                ) == quote_cases_spec(
                    self.elim_env.opts,
                    self.elim_env.meta_values@,
                    len,
                    env,
                    cases@,
                    0,
                    Seq::empty(),
                    fuel as nat,
                ),
            decreases cases@.len() - i,
        {
            let ghost before = cases_model(done@);
            match self.quote_branch(len, env, &cases[i].1, fuel) {
                Some(expr) => {
                    done.push((cases[i].0, expr));
                    assert(cases_model(done@) =~= before.push((cases@[i as int].0, expr@)));
                },
                None => {
                    return None;
                },
            }
            i += 1;
        }
        Some(done)
    }

    /// The fields of a record, read back onto `out`. Returns whether it
    /// succeeded.
    fn quote_fields(
        &self,
        len: usize,
        fields: SharedEnv<'core, (Symbol<'core>, Value<'core>)>,
        out: &mut Vec<(Symbol<'core>, Expr<'core>)>,
        fuel: usize,
    ) -> (ok: bool)
        ensures
            match quote_fields_spec(
                self.elim_env.opts,
                self.elim_env.meta_values@,
                len,
                fields,
                fuel as nat,
            ) {
                Some(terms) => ok && fields_model(final(out)@) == fields_model(old(out)@) + terms,
                None => !ok,
            },
        decreases fuel, 3nat, fields@.len(),
    {
        let ghost out0 = out@;
        match fields {
            SharedEnv::Empty => {
                assert(fields_model(out@) =~= fields_model(out0) + Seq::empty());
                true
            },
            SharedEnv::Entry(entry) => {
                if !self.quote_fields(len, entry.rest, out, fuel) {
                    return false;
                }
                let ghost out1 = out@;
                match self.quote_at(len, &entry.top.1, fuel) {
                    Some(expr) => {
                        out.push((entry.top.0, expr));
                        assert(fields_model(out@) =~= fields_model(out1).push(
                            (entry.top.0@, expr@),
                        ));
                        assert(fields_model(out@) =~= fields_model(out0) + quote_fields_spec(
                            self.elim_env.opts,
                            self.elim_env.meta_values@,
                            len,
                            fields,
                            fuel as nat,
                        )->0);
                        true
                    },
                    None => false,
                }
            },
        }
    }

    /// A telescope, read back as a record type.
    #[verifier::loop_isolation(false)]
    fn quote_telescope(&self, len: usize, telescope: &Telescope<'core>, fuel: usize) -> (r: Option<
        Expr<'core>,
    >)
        ensures
            match quote_telescope_spec(
                self.elim_env.opts,
                self.elim_env.meta_values@,
                len,
                telescope.env,
                telescope.fields@,
                telescope.start as nat,
                Seq::empty(),
                fuel as nat,
            ) {
                Some(terms) => r is Some && r->0@ == Term::RecordType(terms),
                None => r is None,
            },
        decreases fuel, 3nat, telescope.fields@.len(),
    {
        let fields = telescope.fields;
        let mut done: Vec<(Symbol<'core>, Expr<'core>)> = Vec::new();
        let mut env = telescope.env;
        let mut depth = len;
        let mut i = telescope.start;
        proof {
            assert(fields_model(done@) =~= Seq::empty());
        }
        while i < fields.len()
            invariant
                quote_telescope_spec(
                    self.elim_env.opts,
                    self.elim_env.meta_values@,
                    depth,
                    env,
                    fields@,
                    i as nat,
                    fields_model(done@),
                    fuel as nat,
                ) == quote_telescope_spec(
                    self.elim_env.opts,
                    self.elim_env.meta_values@,
                    len,
                    telescope.env,
                    telescope.fields@,
                    telescope.start as nat,
                    Seq::empty(),
                    fuel as nat,
                ),
            decreases fields@.len() - i,
        {
            if depth == usize::MAX {
                return None;
            }
            let ghost before = fields_model(done@);
            let ty = match self.elim_env.eval(env, &fields[i].1, fuel) {
                Some(ty) => ty,
                None => {
                    return None;
                },
            };
            let expr = match self.quote_at(depth, &ty, fuel) {
                Some(expr) => expr,
                None => {
                    return None;
                },
            };
            done.push((fields[i].0, expr));
            assert(fields_model(done@) =~= before.push((fields@[i as int].0@, expr@)));
            env.push(self.elim_env.bump, Value::local_var(AbsoluteVar { level: depth }));
            depth += 1;
            i += 1;
        }
        let fields = arena_alloc(self.elim_env.bump, done);
        proof {
            lemma_record_type_model(fields);
        }
        Some(Expr::RecordType(fields))
    }
}

} // verus!
