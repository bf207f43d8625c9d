//! Elaboration: from surface syntax to core terms and their types.
//!
//! Elaboration goes in two directions: `synth_expr` finds the type of an
//! expression, `check_expr` holds an expression to a type that is known. It
//! recovers from errors: what cannot be elaborated is reported and becomes
//! the error term, which has every type, and elaboration goes on.

use crate::arena::{arena_alloc, arena_alloc_str};
use crate::diagnostic::{Diagnostic, Label, Message};
use crate::elab::{is_innermost, Elaborator, LocalInfo, MetaSource};
use crate::env::{AbsoluteVar, EnvLen, RelativeVar, SharedEnv};
use crate::matching::compile::{
    compile, pat_model, path_model, paths_model, row_model, rows_model, Decision, RowModel,
};
use crate::matching::lower::{arms_model, fails, lower, takes};
use crate::matching::matrix::PatRow;
use crate::outcome::{
    Binding, ann_steps, app_outcome, app_steps, arg_steps, arm_steps, arms_outcome, arrow_steps,
    binder_of, binder_typed, bindings_entered, body_steps, bound_steps, check_lit_outcome,
    check_outcome, check_record_outcome, closure_applied, component_steps, concluded,
    const_outcome, convert_steps, converted, deepened, destructures, duplicate_message,
    elab_opts, elab_step, entered, entering_steps, evaluated, expected_field_message,
    expected_type_remark, extends, field_count_spec, field_found, field_steps, field_text,
    fields_outcome, fix_forced, fix_steps, fix_term, fixed, forced_steps, fresh_term,
    fresh_typed, fun_lit_outcome, fun_type_outcome, function_type_remark, has_label,
    held_field_steps, held_fields_outcome, held_to, hole_steps, if_steps, implicits_inserted,
    inserted_steps, is_error, is_field, is_implicit_param_error, is_mismatch, is_plicity_error,
    is_warning, item_steps, item_type_of, items_outcome, labels_agree, lemma_deep_step,
    lemma_deepen_deepened, lemma_deepen_deepened_step, lemma_deepen_entered,
    lemma_elab_step_reflexive, lemma_elab_step_transitive, lemma_scoped_step, lemma_shown_alike,
    let_body_steps, let_entered, let_outcome, let_rec_body, let_rec_outcome, let_rec_steps,
    let_steps, let_typed, list_outcome, list_steps, list_typed, listed_steps, lit_annotated,
    lit_forced, lit_found, lit_held, lit_param, lit_pattern, lit_rest_steps, lit_steps,
    made_meta, made_step, match_outcome, match_steps, match_told, mismatch_message,
    no_field_message, not_function_message, not_record_message, param_entered, param_outcome,
    param_steps, pat_count, pat_field_steps, pat_fields_found, pat_fields_outcome, pat_forced,
    pat_outcome, pattern_entered, pattern_steps, proj_outcome, proj_steps, projected_env,
    read_as, read_back, read_back_at, rec_init_outcome, rec_init_steps, rec_type_message,
    record_converted, record_forced, record_found, record_held, record_lit_outcome, record_steps,
    record_type_outcome, record_type_steps, reported, rest_steps, restored, shown, shown_from,
    shown_text, silent, synth_outcome, term_or_reported, tuple_typed, tuple_types_outcome,
    type_field_steps, type_fields_outcome, unbound_message, untaken, value_or_reported,
    value_shown, valued_step, var_outcome, warned,
};
use crate::plicity::Plicity;
use crate::prim::Prim;
use crate::prim_type::{prim_from_name, prim_type_term, TermBuilder};
use crate::quote::{quote_spec, var_value};
use crate::semantics::{
    error_value, eval_spec, force_spec, Closure, Elim, Head, Type, Value, ValueEnv,
};
use crate::source::{parse_int, Located, TextRange};
use crate::surface;
use crate::symbol::{name_text, tuple_label_string, Symbol};
use crate::syntax::{bindings_model, lets_term, Const, Expr, FunArg, FunParam, Term};
use crate::unify::{unify_rel, UnifyError};
use vstd::prelude::*;
use vstd::string::StringSliceAdditionalSpecFns;

verus! {

impl<'core, 'text> Elaborator<'core, 'text> {
    /// Reports an error about the range `range` of the source text.
    pub fn report_error(&mut self, range: TextRange, message: Message)
        requires
            old(self).wf(),
        ensures
            elab_step(*old(self), *final(self)),
            reported(*old(self), *final(self), range, message@),
            final(self).diagnostics@.last().message == message,
    {
        let label = Label::new(self.file_id, range);
        self.diagnostics.push(Diagnostic::error(message, label));
    }

    /// Copies a name into the arena of the elaboration.
    pub fn intern(&self, symbol: Symbol) -> (r: Symbol<'core>)
        ensures
            r@ == symbol@,
    {
        Symbol::new(arena_alloc_str(self.bump, symbol.as_str()))
    }

    /// The value of `expr` in the present scope. Where the evaluation runs
    /// out of fuel, that is reported and the value is the error value.
    pub fn eval_or_report(&mut self, range: TextRange, expr: &Expr<'core>) -> (r: Value<'core>)
        requires
            old(self).wf(),
        ensures
            elab_step(*old(self), *final(self)),
            final(self).meta_env == old(self).meta_env,
            value_or_reported(
                *old(self),
                *final(self),
                range,
                eval_spec(
                    elab_opts(),
                    old(self).meta_env.values@,
                    old(self).local_env.values,
                    *expr,
                    old(self).fuel as nat,
                ),
                r,
            ),
    {
        let value = self.eval_env().eval(expr, self.fuel);
        match value {
            Some(value) => {
                proof {
                    lemma_elab_step_reflexive(*self);
                }
                value
            },
            None => {
                self.report_error(range, Message::text("Evaluation limit reached"));
                Value::error()
            },
        }
    }

    /// The value read back in the present scope. Where reading back runs
    /// out of fuel, that is reported and the term is the error term.
    pub fn quote_or_report(&mut self, range: TextRange, value: &Value<'core>) -> (r: Expr<'core>)
        requires
            old(self).wf(),
        ensures
            elab_step(*old(self), *final(self)),
            final(self).meta_env == old(self).meta_env,
            term_or_reported(
                *old(self),
                *final(self),
                range,
                quote_spec(
                    elab_opts(),
                    old(self).meta_env.values@,
                    old(self).local_env.names@.len() as usize,
                    *value,
                    old(self).fuel as nat,
                ),
                r,
            ),
    {
        let expr = self.quote_env().quote(value, self.fuel);
        match expr {
            Some(expr) => {
                proof {
                    lemma_elab_step_reflexive(*self);
                }
                expr
            },
            None => {
                self.report_error(range, Message::text("Evaluation limit reached"));
                Expr::Error
            },
        }
    }

    /// The body of a closure for the argument `arg`.
    pub fn apply_closure_or_report(
        &mut self,
        range: TextRange,
        closure: &Closure<'core>,
        arg: Value<'core>,
    ) -> (r: Value<'core>)
        requires
            old(self).wf(),
        ensures
            elab_step(*old(self), *final(self)),
            final(self).meta_env == old(self).meta_env,
            value_or_reported(
                *old(self),
                *final(self),
                range,
                eval_spec(
                    elab_opts(),
                    old(self).meta_env.values@,
                    closure.env.pushed(arg),
                    *closure.body,
                    old(self).fuel as nat,
                ),
                r,
            ),
    {
        let mut env = closure.env;
        env.push(self.bump, arg);
        let value = self.elim_env().eval(env, closure.body, self.fuel);
        match value {
            Some(value) => {
                proof {
                    lemma_elab_step_reflexive(*self);
                }
                value
            },
            None => {
                self.report_error(range, Message::text("Evaluation limit reached"));
                Value::error()
            },
        }
    }

    /// The value with the solutions of the metavariables at its head in
    /// their place.
    pub fn force_or_report(&mut self, range: TextRange, value: &Value<'core>) -> (r: Value<'core>)
        requires
            old(self).wf(),
        ensures
            elab_step(*old(self), *final(self)),
            final(self).meta_env == old(self).meta_env,
            value_or_reported(
                *old(self),
                *final(self),
                range,
                force_spec(elab_opts(), old(self).meta_env.values@, *value, old(self).fuel as nat),
                r,
            ),
    {
        let forced = self.elim_env().force(*value, self.fuel);
        match forced {
            Some(forced) => {
                proof {
                    lemma_elab_step_reflexive(*self);
                }
                forced
            },
            None => {
                self.report_error(range, Message::text("Evaluation limit reached"));
                Value::error()
            },
        }
    }

    /// The text of a value as the user is to see it: the value read back
    /// in the present scope, and printed as [`Elaborator::pretty`] prints a
    /// term; `#error` where it cannot be read back.
    fn pretty_value(&mut self, value: &Value<'core>) -> (r: String)
        requires
            old(self).wf(),
        ensures
            elab_step(*old(self), *final(self)),
            final(self).meta_env == old(self).meta_env,
            final(self).diagnostics == old(self).diagnostics,
            value_shown(*old(self), *value, r@),
    {
        proof {
            lemma_elab_step_reflexive(*self);
        }
        let expr = self.quote_env().quote(value, self.fuel);
        match expr {
            Some(expr) => {
                let text = self.pretty(&expr);
                proof {
                    assert(read_as(expr));
                    assert(text@ == shown_text(*old(self), expr));
                }
                text
            },
            None => String::from_str("#error"),
        }
    }

    /// A metavariable for a type, made in the present scope: the value of
    /// the metavariable applied to the parameters in scope.
    pub fn fresh_type(&mut self, range: TextRange, source: MetaSource<'core>) -> (r: Value<'core>)
        requires
            old(self).wf(),
        ensures
            fresh_typed(*old(self), *final(self), range, source, r),
    {
        let ghost before = *self;
        let value = self.push_unsolved_type(source);
        proof {
            assert(elab_step(before, *self));
        }
        match value {
            Some(value) => value,
            None => {
                let ghost mid = *self;
                self.report_error(range, Message::text("Evaluation limit reached"));
                proof {
                    lemma_elab_step_transitive(before, mid, *self);
                }
                Value::error()
            },
        }
    }

    /// A metavariable of type `ty`, made in the present scope: the
    /// metavariable applied to the parameters in scope.
    pub fn fresh_expr(&mut self, source: MetaSource<'core>, ty: Type<'core>) -> (r: Expr<'core>)
        requires
            old(self).wf(),
        ensures
            elab_step(*old(self), *final(self)),
            made_meta(*old(self), *final(self), source, ty),
            final(self).diagnostics@ == old(self).diagnostics@,
            r@ == fresh_term(*old(self)),
    {
        let expr = self.push_unsolved_expr(source, ty);
        expr
    }

    /// Brings a parameter into scope.
    pub fn enter_param(&mut self, name: Option<Symbol<'core>>, ty: Type<'core>)
        requires
            old(self).wf(),
        ensures
            entered(*old(self), *final(self)),
            final(self).local_env.infos@.last() == LocalInfo::Param,
            final(self).local_env.names@.last() == name,
            final(self).local_env.types@.last() == ty,
            final(self).local_env.values == old(self).local_env.values.pushed(
                var_value(old(self).local_env.names@.len() as usize),
            ),
    {
        let ghost before = *self;
        self.local_env.push_param(name, ty);
        proof {
            assert(self.local_env.names@.drop_last() =~= before.local_env.names@);
            assert(self.local_env.infos@.drop_last() =~= before.local_env.infos@);
            assert(self.local_env.types@.drop_last() =~= before.local_env.types@);
        }
    }

    /// Brings a variable that is bound to a value into scope.
    pub fn enter_let(&mut self, name: Option<Symbol<'core>>, ty: Type<'core>, value: Value<'core>)
        requires
            old(self).wf(),
        ensures
            entered(*old(self), *final(self)),
            final(self).local_env.infos@.last() == LocalInfo::Let,
            final(self).local_env.names@.last() == name,
            final(self).local_env.types@.last() == ty,
            final(self).local_env.values == old(self).local_env.values.pushed(value),
    {
        let ghost before = *self;
        self.local_env.push_let(name, ty, value);
        proof {
            assert(self.local_env.names@.drop_last() =~= before.local_env.names@);
            assert(self.local_env.infos@.drop_last() =~= before.local_env.infos@);
            assert(self.local_env.types@.drop_last() =~= before.local_env.types@);
        }
    }

    /// Takes the variable bound last out of scope.
    pub fn leave(&mut self)
        requires
            old(self).wf(),
            old(self).local_env.names@.len() > 0,
        ensures
            entered(*final(self), *old(self)),
    {
        let ghost before = *self;
        self.local_env.pop();
        proof {
            assert(before.local_env.names@ =~= self.local_env.names@.push(
                before.local_env.names@.last(),
            ));
            assert(before.local_env.infos@ =~= self.local_env.infos@.push(
                before.local_env.infos@.last(),
            ));
            assert(before.local_env.types@ =~= self.local_env.types@.push(
                before.local_env.types@.last(),
            ));
            assert(before.local_env.values@.len() > 0);
        }
    }
}

/// The name that a pattern binds, where the pattern is a binder, in
/// parentheses or not.
pub fn pat_name<'s>(pat: &Located<surface::Pat<'s>>) -> (r: Option<Symbol<'s>>)
    ensures
        r == binder_of(*pat),
    decreases *pat,
{
    match pat.data {
        surface::Pat::Ident(name) => Some(name),
        surface::Pat::Paren(inner) => pat_name(inner),
        _ => None,
    }
}

/// Whether a pattern looks into a value: whether it is a literal, a tuple
/// or a record pattern, in parentheses or not.
pub fn pat_destructures(pat: &Located<surface::Pat>) -> (r: bool)
    ensures
        r == destructures(*pat),
    decreases *pat,
{
    match pat.data {
        surface::Pat::Tuple(_) | surface::Pat::RecordLit(_) | surface::Pat::Lit(_) => true,
        surface::Pat::Paren(inner) => pat_destructures(inner),
        _ => false,
    }
}

impl<'core, 'text> Elaborator<'core, 'text> {
    /// The type of types, as a value.
    fn type_type() -> (r: Value<'core>)
        ensures
            r == Value::Prim(Prim::Type),
    {
        Value::type_of_types()
    }

    /// Reports that the types `found` and `expected` differ.
    fn report_mismatch(&mut self, range: TextRange, found: &Value<'core>, expected: &Value<'core>)
        requires
            old(self).wf(),
        ensures
            elab_step(*old(self), *final(self)),
            final(self).meta_env == old(self).meta_env,
            final(self).diagnostics@.len() == old(self).diagnostics@.len() + 1,
            is_mismatch(final(self).diagnostics@.last(), *final(self), range, *found, *expected),
    {
        let found_text = self.pretty_value(found);
        let ghost first = *self;
        let expected_text = self.pretty_value(expected);
        let message = Message::text("Type mismatch: expected `").then_text(
            expected_text.as_str(),
        ).then_text("`, found `").then_text(found_text.as_str()).then_text("`");
        assert(message@ == mismatch_message(expected_text@, found_text@));
        self.report_error(range, message);
        proof {
            lemma_elab_step_transitive(*old(self), first, *self);
            lemma_shown_alike(*old(self), *self, *found, found_text@);
            lemma_shown_alike(first, *self, *expected, expected_text@);
        }
    }

    /// Holds `expr`, of type `from`, to the type `to`, as they stand: the
    /// term, if the types unify; else the error term, and a report.
    pub fn hold_to(
        &mut self,
        range: TextRange,
        expr: Expr<'core>,
        from: &Type<'core>,
        to: &Type<'core>,
    ) -> (r: Expr<'core>)
        requires
            old(self).wf(),
        ensures
            elab_step(*old(self), *final(self)),
            held_to(*old(self), *final(self), range, expr, *from, *to, r),
    {
        let outcome = self.unify(from, to);
        let ghost mid = *self;
        assert(elab_step(*old(self), mid));
        let r = match outcome {
            Ok(()) => expr,
            Err(UnifyError::OutOfFuel) => {
                self.report_error(range, Message::text("Evaluation limit reached"));
                Expr::Error
            },
            Err(_) => {
                self.report_mismatch(range, from, to);
                Expr::Error
            },
        };
        proof {
            lemma_elab_step_transitive(*old(self), mid, *self);
            assert(unify_rel(
                elab_opts(),
                old(self).local_env.types@,
                old(self).local_env.names@.len() as usize,
                *from,
                *to,
                old(self).fuel as nat,
                old(self).meta_env.values@,
                outcome,
                self.meta_env.values@,
            ));
        }
        r
    }

    /// Applies `expr`, of type `ty`, to a fresh metavariable for each
    /// implicit parameter that its type begins with, and gives the type of
    /// the application. A term whose type takes no implicit parameter stays
    /// as it is, with its type forced. No more arguments are inserted than
    /// the elaborator allows steps.
    pub fn insert_implicit_apps(
        &mut self,
        range: TextRange,
        expr: Expr<'core>,
        ty: Type<'core>,
    ) -> (r: (Expr<'core>, Type<'core>))
        requires
            old(self).wf(),
        ensures
            elab_step(*old(self), *final(self)),
            implicits_inserted(
                *old(self),
                *final(self),
                range,
                expr,
                ty,
                r,
                old(self).fuel as nat,
            ),
    {
        let budget = self.fuel;
        self.insert_implicits_within(range, expr, ty, budget)
    }

    /// Applies `expr`, of type `ty`, to implicit arguments as
    /// [`Self::insert_implicit_apps`] does it, to at most `budget` of them.
    fn insert_implicits_within(
        &mut self,
        range: TextRange,
        expr: Expr<'core>,
        ty: Type<'core>,
        budget: usize,
    ) -> (r: (Expr<'core>, Type<'core>))
        requires
            old(self).wf(),
        ensures
            elab_step(*old(self), *final(self)),
            implicits_inserted(*old(self), *final(self), range, expr, ty, r, budget as nat),
        decreases budget,
    {
        if budget == 0 {
            proof {
                lemma_elab_step_reflexive(*self);
            }
            return (expr, ty);
        }
        let forced = self.force_or_report(range, &ty);
        let ghost found = *self;
        proof {
            assert(forced_steps(found, forced));
        }
        match forced {
            Value::FunType { param, body } => {
                if param.plicity != Plicity::Implicit {
                    return (expr, forced);
                }
                let source = MetaSource::ImplicitArg { range, name: param.name };
                let arg = self.fresh_expr(source, *param.ty);
                let ghost made = *self;
                let arg_value = self.eval_or_report(range, &arg);
                let ghost valued = *self;
                let fun = arena_alloc(self.bump, expr);
                let arg_term = arena_alloc(self.bump, arg);
                let applied = Expr::FunApp { fun, arg: FunArg::new(Plicity::Implicit, arg_term) };
                let next_ty = self.apply_closure_or_report(range, &body, arg_value);
                let ghost applied_state = *self;
                let r = self.insert_implicits_within(range, applied, next_ty, budget - 1);
                proof {
                    lemma_elab_step_transitive(found, made, valued);
                    lemma_elab_step_transitive(found, valued, applied_state);
                    lemma_elab_step_transitive(found, applied_state, *self);
                    lemma_elab_step_transitive(*old(self), found, *self);
                    assert(inserted_steps(
                        made,
                        valued,
                        applied_state,
                        arg,
                        arg_value,
                        applied,
                        next_ty,
                    ));
                }
                r
            },
            _ => (expr, forced),
        }
    }

    /// Holds `expr`, of type `from`, to the type `to`. Where `to` is the
    /// type of a function with an explicit parameter and `expr` is no
    /// function literal, `expr` is first applied to a fresh metavariable for
    /// each implicit parameter that `from` begins with. Then, from the state
    /// that this leaves, the term is held to the type as [`Self::hold_to`]
    /// does it.
    pub fn convert(
        &mut self,
        range: TextRange,
        expr: Expr<'core>,
        from: Type<'core>,
        to: &Type<'core>,
    ) -> (r: Expr<'core>)
        requires
            old(self).wf(),
        ensures
            elab_step(*old(self), *final(self)),
            converted(*old(self), *final(self), range, expr, from, *to, r),
    {
        let target = self.force_or_report(range, to);
        let ghost forced = *self;
        let explicit_target = match target {
            Value::FunType { param, .. } => param.plicity == Plicity::Explicit,
            _ => false,
        };
        let is_fun_lit = match expr {
            Expr::FunLit { .. } => true,
            _ => false,
        };
        let (applied, ty) = if explicit_target && !is_fun_lit {
            self.insert_implicit_apps(range, expr, from)
        } else {
            proof {
                lemma_elab_step_reflexive(*self);
            }
            (expr, from)
        };
        let ghost mid = *self;
        let r = self.hold_to(range, applied, &ty, to);
        proof {
            lemma_elab_step_transitive(*old(self), forced, mid);
            lemma_elab_step_transitive(*old(self), mid, *self);
            assert(convert_steps(forced, mid, target, applied, ty));
            assert(held_to(mid, *self, range, applied, ty, *to, r));
        }
        r
    }

    /// A literal: the constant that it stands for, and the type of that
    /// constant. An integer literal that is no number below 2^32 is reported
    /// and becomes the error term.
    pub fn synth_const(&mut self, range: TextRange, lit: surface::Const) -> (r: (
        Expr<'core>,
        Type<'core>,
    ))
        requires
            old(self).wf(),
        ensures
            elab_step(*old(self), *final(self)),
            const_outcome(*old(self), *final(self), range, lit, r),
    {
        match lit.base() {
            None => {
                let value = match lit {
                    surface::Const::Bool(value) => value,
                    _ => false,
                };
                (Expr::Lit(Const::Bool(value)), Value::Prim(Prim::Bool))
            },
            Some(base) => match parse_int(self.text, range, base) {
                Some(value) => (Expr::Lit(Const::Int(value)), Value::Prim(Prim::Int)),
                None => {
                    self.report_error(range, Message::text("Invalid integer literal"));
                    (Expr::Error, Value::error())
                },
            },
        }
    }

    /// A name: the innermost local variable of that name, with its type;
    /// else the primitive of that name, with the value of its type. A name
    /// that is neither is reported and becomes the error term.
    pub fn synth_var(&mut self, range: TextRange, name: Symbol) -> (r: (Expr<'core>, Type<'core>))
        requires
            old(self).wf(),
        ensures
            elab_step(*old(self), *final(self)),
            var_outcome(*old(self), *final(self), range, name, r),
    {
        match self.local_env.lookup(name) {
            Some(var) => {
                assert(is_innermost(self.local_env.names@, name, var.index as nat));
                match self.local_env.types.get_relative(var) {
                    Some(ty) => (Expr::LocalVar(var), *ty),
                    None => (Expr::Error, Value::error()),
                }
            },
            None => match prim_from_name(name.as_str()) {
                Some(prim) => {
                    let ty = (TermBuilder { bump: self.bump }).prim_type(prim);
                    let value = self.elim_env().eval(SharedEnv::Empty, &ty, self.fuel);
                    assert(ty@ == prim_type_term(prim));
                    match value {
                        Some(value) => (Expr::Prim(prim), value),
                        None => {
                            self.report_error(range, Message::text("Evaluation limit reached"));
                            (Expr::Error, Value::error())
                        },
                    }
                },
                None => {
                    let message = Message::text("Unbound variable: `").then_text(
                        name.as_str(),
                    ).then_text("`");
                    assert(message@ =~= unbound_message(name@));
                    self.report_error(range, message);
                    (Expr::Error, Value::error())
                },
            },
        }
    }

    /// The type of a binder: its annotation, elaborated, where it has one;
    /// else a fresh metavariable.
    fn binder_type(
        &mut self,
        range: TextRange,
        name: Option<Symbol<'core>>,
        annotation: Option<Expr<'core>>,
    ) -> (r: (Expr<'core>, Type<'core>))
        requires
            old(self).wf(),
        ensures
            elab_step(*old(self), *final(self)),
            binder_typed(*old(self), *final(self), range, name, annotation, r),
    {
        match annotation {
            Some(ty) => {
                let value = self.eval_or_report(range, &ty);
                proof {
                    assert(evaluated(*old(self), *self, range, ty, value));
                    assert(binder_typed(*old(self), *self, range, name, annotation, (ty, value)));
                }
                (ty, value)
            },
            None => {
                let value = self.fresh_type(range, MetaSource::PatType { range, name });
                let ghost made = *self;
                let ty = self.quote_or_report(range, &value);
                proof {
                    lemma_elab_step_transitive(*old(self), made, *self);
                    assert(fresh_typed(
                        *old(self),
                        made,
                        range,
                        MetaSource::PatType { range, name },
                        value,
                    ));
                    assert(read_back(made, *self, range, value, ty));
                    assert(made_step(made));
                    assert(binder_typed(*old(self), *self, range, name, annotation, (ty, value)));
                }
                (ty, value)
            },
        }
    }

    /// The type of a `let` binding: the value of its annotation, where it
    /// has one, else a fresh metavariable; and the term that this value
    /// reads back to, in which the definitions in scope are unfolded.
    fn let_type(
        &mut self,
        range: TextRange,
        name: Option<Symbol<'core>>,
        annotation: Option<Expr<'core>>,
    ) -> (r: (Expr<'core>, Type<'core>))
        requires
            old(self).wf(),
        ensures
            elab_step(*old(self), *final(self)),
            let_typed(*old(self), *final(self), range, name, annotation, r),
    {
        let value = match annotation {
            Some(ty) => self.eval_or_report(range, &ty),
            None => self.fresh_type(range, MetaSource::PatType { range, name }),
        };
        let ghost valued = *self;
        let ty = self.quote_or_report(range, &value);
        proof {
            lemma_elab_step_transitive(*old(self), valued, *self);
            assert(read_back(valued, *self, range, value, ty));
            assert(valued_step(valued));
            assert(let_typed(*old(self), *self, range, name, annotation, (ty, value)));
        }
        (ty, value)
    }

    /// Finds the type of `expr`: the core term that it elaborates to, and
    /// its type, form by form as [`synth_outcome`] says.
    pub fn synth_expr(&mut self, expr: &Located<surface::Expr>) -> (r: (Expr<'core>, Type<'core>))
        requires
            old(self).wf(),
        ensures
            elab_step(*old(self), *final(self)),
            synth_outcome(*old(self), *expr, r, *final(self)),
        decreases *expr, 3nat, 0nat, 0nat,
    {
        let range = expr.range;
        match expr.data {
            surface::Expr::Error => (Expr::Error, Value::error()),
            surface::Expr::Const(lit) => self.synth_const(range, lit),
            surface::Expr::LocalVar(name) => self.synth_var(range, name),
            surface::Expr::Hole => {
                let ty = self.fresh_type(range, MetaSource::HoleType { range });
                let ghost typed = *self;
                let term = self.fresh_expr(MetaSource::HoleExpr { range }, ty);
                proof {
                    assert(hole_steps(typed));
                    lemma_elab_step_transitive(*old(self), typed, *self);
                }
                (term, ty)
            },
            surface::Expr::Paren(inner) => {
                let r = self.synth_expr(inner);
                assert(synth_outcome(*old(self), *expr, r, *self));
                r
            },
            surface::Expr::Ann { expr: inner, ty } => {
                let ty_expr = self.check_expr(ty, &Self::type_type());
                let ghost checked = *self;
                let ty_value = self.eval_or_report(ty.range, &ty_expr);
                let ghost valued = *self;
                let term = self.check_expr(inner, &ty_value);
                proof {
                    assert(check_outcome(*old(self), *ty, Value::Prim(Prim::Type), ty_expr, checked));
                    assert(evaluated(checked, valued, ty.range, ty_expr, ty_value));
                    assert(check_outcome(valued, *inner, ty_value, term, *self));
                    assert(ann_steps(checked, valued, ty_expr));
                    assert(synth_outcome(*old(self), *expr, (term, ty_value), *self));
                }
                (term, ty_value)
            },
            surface::Expr::Let { rec, .. } => {
                if rec {
                    self.elab_let_rec(expr, None)
                } else {
                    self.elab_let(expr, None)
                }
            },
            surface::Expr::If { cond, then_branch, else_branch } => {
                let cond_term = self.check_expr(cond, &Value::Prim(Prim::Bool));
                let ghost first = *self;
                let (then_term, ty) = self.synth_expr(then_branch);
                let ghost second = *self;
                let else_term = self.check_expr(else_branch, &ty);
                proof {
                    assert(check_outcome(
                        *old(self),
                        *cond,
                        Value::Prim(Prim::Bool),
                        cond_term,
                        first,
                    ));
                    assert(synth_outcome(first, *then_branch, (then_term, ty), second));
                    assert(check_outcome(second, *else_branch, ty, else_term, *self));
                }
                let term = Expr::MatchBool {
                    cond: arena_alloc(self.bump, cond_term),
                    then_branch: arena_alloc(self.bump, then_term),
                    else_branch: arena_alloc(self.bump, else_term),
                };
                assert(term@ == Term::MatchBool {
                    cond: Box::new(cond_term@),
                    then_branch: Box::new(then_term@),
                    else_branch: Box::new(else_term@),
                });
                assert(if_steps(first, second, cond_term, then_term, else_term));
                assert(synth_outcome(*old(self), *expr, (term, ty), *self));
                (term, ty)
            },
            surface::Expr::FunArrow { plicity, lhs, rhs } => {
                let lhs_term = self.check_expr(lhs, &Self::type_type());
                let ghost checked = *self;
                let lhs_value = self.eval_or_report(lhs.range, &lhs_term);
                let ghost outer = *self;
                self.enter_param(None, lhs_value);
                let ghost inner = *self;
                let rhs_term = self.check_expr(rhs, &Self::type_type());
                let ghost inner_after = *self;
                self.leave();
                proof {
                    lemma_scoped_step(outer, inner, inner_after, *self);
                }
                let term = Expr::FunType {
                    param: FunParam::new(plicity, None, arena_alloc(self.bump, lhs_term)),
                    body: arena_alloc(self.bump, rhs_term),
                };
                proof {
                    assert(check_outcome(
                        *old(self),
                        *lhs,
                        Value::Prim(Prim::Type),
                        lhs_term,
                        checked,
                    ));
                    assert(evaluated(checked, outer, lhs.range, lhs_term, lhs_value));
                    assert(param_entered(outer, inner, None, lhs_value));
                    assert(check_outcome(
                        inner,
                        *rhs,
                        Value::Prim(Prim::Type),
                        rhs_term,
                        inner_after,
                    ));
                    assert(term@ == Term::FunType {
                        plicity,
                        name: None,
                        ty: Box::new(lhs_term@),
                        body: Box::new(rhs_term@),
                    });
                    assert(arrow_steps(
                        checked,
                        outer,
                        inner,
                        inner_after,
                        lhs_term,
                        lhs_value,
                        rhs_term,
                    ));
                    assert(synth_outcome(*old(self), *expr, (term, Value::Prim(Prim::Type)), *self));
                }
                (term, Self::type_type())
            },
            surface::Expr::FunType { .. } => {
                let term = self.synth_fun_type(expr, 0);
                (term, Self::type_type())
            },
            surface::Expr::FunLit { .. } => {
                let found = self.synth_fun_lit(expr, 0);
                let ghost made = *self;
                let ty = self.eval_or_report(range, &found.1);
                proof {
                    assert(fun_lit_outcome(*old(self), *expr, 0, found, made));
                    assert(evaluated(made, *self, expr.range, found.1, ty));
                    assert(lit_steps(made, found));
                    assert(synth_outcome(*old(self), *expr, (found.0, ty), *self));
                }
                (found.0, ty)
            },
            surface::Expr::FunApp { fun, arg } => self.synth_fun_app(expr),
            surface::Expr::TupleLit(_) => self.synth_record_lit(expr),
            surface::Expr::RecordLit(_) => self.synth_record_lit(expr),
            surface::Expr::ListLit(_) => self.elab_list(expr, None),
            surface::Expr::RecordType(_) => {
                let term = self.synth_record_type(expr);
                (term, Self::type_type())
            },
            surface::Expr::RecordProj { .. } => self.synth_record_proj(expr),
            surface::Expr::Match { .. } => {
                let ty = self.fresh_type(range, MetaSource::HoleType { range });
                let ghost made = *self;
                let term = self.elab_match(expr, ty);
                proof {
                    lemma_elab_step_transitive(*old(self), made, *self);
                    assert(made_step(made));
                    assert(synth_outcome(*old(self), *expr, (term, ty), *self));
                }
                (term, ty)
            },
        }
    }

    /// Holds `expr` to the type `expected`: the core term that it
    /// elaborates to, form by form as [`check_outcome`] says.
    pub fn check_expr(&mut self, expr: &Located<surface::Expr>, expected: &Type<'core>) -> (r: Expr<
        'core,
    >)
        requires
            old(self).wf(),
        ensures
            elab_step(*old(self), *final(self)),
            check_outcome(*old(self), *expr, *expected, r, *final(self)),
        decreases *expr, 4nat, 0nat, 0nat,
    {
        let range = expr.range;
        match expr.data {
            surface::Expr::Error => Expr::Error,
            surface::Expr::Paren(inner) => {
                let r = self.check_expr(inner, expected);
                assert(check_outcome(*old(self), *expr, *expected, r, *self));
                r
            },
            surface::Expr::Let { rec, .. } => {
                let (term, _) = if rec {
                    self.elab_let_rec(expr, Some(*expected))
                } else {
                    self.elab_let(expr, Some(*expected))
                };
                term
            },
            surface::Expr::If { cond, then_branch, else_branch } => {
                let cond_term = self.check_expr(cond, &Value::Prim(Prim::Bool));
                let ghost first = *self;
                let then_term = self.check_expr(then_branch, expected);
                let ghost second = *self;
                let else_term = self.check_expr(else_branch, expected);
                proof {
                    assert(check_outcome(
                        *old(self),
                        *cond,
                        Value::Prim(Prim::Bool),
                        cond_term,
                        first,
                    ));
                    assert(check_outcome(first, *then_branch, *expected, then_term, second));
                    assert(check_outcome(second, *else_branch, *expected, else_term, *self));
                }
                let term = Expr::MatchBool {
                    cond: arena_alloc(self.bump, cond_term),
                    then_branch: arena_alloc(self.bump, then_term),
                    else_branch: arena_alloc(self.bump, else_term),
                };
                assert(term@ == Term::MatchBool {
                    cond: Box::new(cond_term@),
                    then_branch: Box::new(then_term@),
                    else_branch: Box::new(else_term@),
                });
                assert(if_steps(first, second, cond_term, then_term, else_term));
                assert(check_outcome(*old(self), *expr, *expected, term, *self));
                term
            },
            surface::Expr::FunLit { .. } => {
                let budget = self.fuel;
                self.check_fun_lit(expr, 0, *expected, budget)
            },
            surface::Expr::TupleLit(_) | surface::Expr::RecordLit(_) => self.check_record_lit(
                expr,
                expected,
            ),
            surface::Expr::ListLit(_) => {
                let forced = self.force_or_report(expr.range, expected);
                let ghost forced_state = *self;
                proof {
                    assert(forced_steps(forced_state, forced));
                }
                match Self::item_type(&forced) {
                    Some(item_ty) => {
                        let (term, list_ty) = self.elab_list(expr, Some(item_ty));
                        proof {
                            assert(list_outcome(
                                forced_state,
                                *expr,
                                Some(item_ty),
                                (term, list_ty),
                                *self,
                            ));
                            assert(list_typed(list_ty));
                            assert(check_outcome(*old(self), *expr, *expected, term, *self));
                        }
                        term
                    },
                    None => {
                        let list = self.elab_list(expr, None);
                        let ghost found = *self;
                        let r = self.convert(expr.range, list.0, list.1, expected);
                        proof {
                            assert(list_outcome(forced_state, *expr, None, list, found));
                            assert(listed_steps(found, list));
                            assert(check_outcome(*old(self), *expr, *expected, r, *self));
                        }
                        r
                    },
                }
            },
            surface::Expr::Match { .. } => self.elab_match(expr, *expected),
            _ => {
                let (term, ty) = self.synth_expr(expr);
                let ghost found = *self;
                let r = self.convert(range, term, ty, expected);
                proof {
                    assert(synth_outcome(*old(self), *expr, (term, ty), found));
                    assert(converted(found, *self, range, term, ty, *expected, r));
                    assert(check_outcome(*old(self), *expr, *expected, r, *self));
                }
                r
            },
        }
    }

    /// An application.
    fn synth_fun_app(&mut self, expr: &Located<surface::Expr>) -> (r: (Expr<'core>, Type<'core>))
        requires
            old(self).wf(),
            expr.data is FunApp,
        ensures
            elab_step(*old(self), *final(self)),
            app_outcome(*old(self), *expr, r, *final(self)),
        decreases *expr, 2nat, 0nat, 0nat,
    {
        let (fun, arg) = match expr.data {
            surface::Expr::FunApp { fun, arg } => (fun, arg),
            _ => {
                proof {
                    lemma_elab_step_reflexive(*self);
                }
                return (Expr::Error, Value::error());
            },
        };
        let fun_first = self.synth_expr(fun);
        let ghost found = *self;
        let fun_applied = match arg.data.plicity {
            Plicity::Explicit => self.insert_implicit_apps(fun.range, fun_first.0, fun_first.1),
            Plicity::Implicit => fun_first,
        };
        let ghost applied = *self;
        let fun_term = fun_applied.0;
        let fun_ty = self.force_or_report(fun.range, &fun_applied.1);
        let ghost forced = *self;
        proof {
            assert(synth_outcome(*old(self), *fun, fun_first, found));
            assert(app_steps(found, applied, forced, fun_first, fun_applied, fun_ty));
        }
        match fun_ty {
            Value::FunType { param, body } => {
                if param.plicity == arg.data.plicity {
                    let arg_term = self.check_expr(arg.data.expr, param.ty);
                    let ghost checked = *self;
                    let arg_value = self.eval_or_report(arg.range, &arg_term);
                    let ghost valued = *self;
                    let ty = self.apply_closure_or_report(expr.range, &body, arg_value);
                    let term = Expr::FunApp {
                        fun: arena_alloc(self.bump, fun_term),
                        arg: FunArg::new(arg.data.plicity, arena_alloc(self.bump, arg_term)),
                    };
                    proof {
                        assert(check_outcome(forced, *arg.data.expr, *param.ty, arg_term, checked));
                        assert(evaluated(checked, valued, arg.range, arg_term, arg_value));
                        assert(term@ == Term::FunApp {
                            fun: Box::new(fun_term@),
                            plicity: arg.data.plicity,
                            arg: Box::new(arg_term@),
                        });
                        assert(arg_steps(checked, valued, arg_term, arg_value));
                        assert(app_outcome(*old(self), *expr, (term, ty), *self));
                    }
                    (term, ty)
                } else {
                    let shown = self.pretty_value(&fun_ty);
                    let (message, remark) = match arg.data.plicity {
                        Plicity::Implicit => (
                            "Applied implicit argument when explicit argument was expected",
                            "implicit argument",
                        ),
                        Plicity::Explicit => (
                            "Applied explicit argument when implicit argument was expected",
                            "explicit argument",
                        ),
                    };
                    let primary = Label::new(self.file_id, arg.range).with_message(
                        Message::text(remark),
                    );
                    let secondary = Label::new(self.file_id, fun.range).with_message(
                        Message::text("function has type ").then_text(shown.as_str()),
                    );
                    let diagnostic = Diagnostic::error(
                        Message::text(message),
                        primary,
                    ).with_secondary_label(secondary);
                    proof {
                        assert(function_type_remark(shown@) == secondary.message->0@);
                        assert(diagnostic.secondary_labels@[0] == secondary);
                        assert(is_plicity_error(
                            diagnostic,
                            forced,
                            fun_ty,
                            fun.range,
                            arg.range,
                            arg.data.plicity,
                        ));
                    }
                    self.diagnostics.push(diagnostic);
                    proof {
                        assert(app_outcome(
                            *old(self),
                            *expr,
                            (Expr::Error, error_value::<'core>()),
                            *self,
                        ));
                    }
                    (Expr::Error, Value::error())
                }
            },
            Value::Neutral(Head::Error, _) => {
                proof {
                    assert(app_outcome(
                        *old(self),
                        *expr,
                        (Expr::Error, error_value::<'core>()),
                        *self,
                    ));
                }
                (Expr::Error, Value::error())
            },
            _ => {
                let shown = self.pretty_value(&fun_ty);
                let message = Message::text("Expected function, found `").then_text(
                    shown.as_str(),
                ).then_text("`");
                proof {
                    assert(message@ == not_function_message(shown@));
                }
                self.report_error(fun.range, message);
                proof {
                    assert(is_error(
                        self.diagnostics@.last(),
                        old(self).file_id,
                        fun.range,
                        not_function_message(shown@),
                    ));
                    assert(app_outcome(
                        *old(self),
                        *expr,
                        (Expr::Error, error_value::<'core>()),
                        *self,
                    ));
                }
                (Expr::Error, Value::error())
            },
        }
    }

    /// Brings the parameter `param` into scope: elaborates its annotation,
    /// finds its type, and enters it under the name that its pattern binds.
    /// Returns the name and the type, as a term and as a value.
    fn enter_fun_param(&mut self, param: &Located<surface::FunParam>) -> (r: (
        Option<Symbol<'core>>,
        Expr<'core>,
        Type<'core>,
    ))
        requires
            old(self).wf(),
        ensures
            exists|
                annotated: Elaborator<'core, 'text>,
                typed: Elaborator<'core, 'text>,
                annotation: Option<Expr<'core>>,
            |
                {
                    &&& #[trigger] entering_steps(annotated, typed, annotation)
                    &&& param_outcome(
                        *old(self),
                        *param,
                        annotated,
                        typed,
                        *final(self),
                        annotation,
                        r.0,
                        (r.1, r.2),
                    )
                    &&& elab_step(*old(self), typed)
                },
        decreases *param, 5nat, 0nat, 0nat,
    {
        let annotation = match param.data.ty {
            Some(ty) => Some(self.check_expr(&ty, &Self::type_type())),
            None => None,
        };
        let ghost annotated = *self;
        let name = match pat_name(&param.data.pat) {
            Some(name) => Some(self.intern(name)),
            None => None,
        };
        let (ty, ty_value) = self.binder_type(param.range, name, annotation);
        let ghost typed = *self;
        self.enter_param(name, ty_value);
        proof {
            lemma_elab_step_transitive(*old(self), annotated, typed);
            assert(param_outcome(
                *old(self),
                *param,
                annotated,
                typed,
                *self,
                annotation,
                name,
                (ty, ty_value),
            ));
            assert(entering_steps(annotated, typed, annotation));
        }
        (name, ty, ty_value)
    }

    /// The parameters from `from` on of a function type, and its body.
    fn synth_fun_type(&mut self, expr: &Located<surface::Expr>, from: usize) -> (r: Expr<'core>)
        requires
            old(self).wf(),
            expr.data is FunType,
        ensures
            elab_step(*old(self), *final(self)),
            fun_type_outcome(*old(self), *expr, from as nat, r, *final(self)),
        decreases *expr, 1nat, expr.data->FunType_params@.len() - from, 0nat,
    {
        let (params, body) = match expr.data {
            surface::Expr::FunType { params, body } => (params, body),
            _ => {
                proof {
                    lemma_elab_step_reflexive(*self);
                }
                return Expr::Error;
            },
        };
        if from >= params.len() {
            return self.check_expr(body, &Self::type_type());
        }
        proof {
            assert(decreases_to!(*params => params[from as int]));
        }
        let param = params[from];
        let (name, ty, ty_value) = self.enter_fun_param(&param);
        let ghost inner = *self;
        let ghost (annotated, outer, annotation) = choose|
            annotated: Elaborator<'core, 'text>,
            typed: Elaborator<'core, 'text>,
            annotation: Option<Expr<'core>>,
        | #[trigger]
            entering_steps(annotated, typed, annotation) && param_outcome(
                *old(self),
                param,
                annotated,
                typed,
                inner,
                annotation,
                name,
                (ty, ty_value),
            ) && elab_step(*old(self), typed);
        let var = Value::local_var(AbsoluteVar { level: self.local_env.len().len - 1 });
        let depth = self.local_env.len();
        let saved = self.local_env.values;
        let bindings = self.enter_pattern(
            &param.data.pat,
            Expr::LocalVar(RelativeVar::new()),
            var,
            ty_value,
        );
        let ghost deep = *self;
        let rest = self.synth_fun_type(expr, from + 1);
        let ghost deep_after = *self;
        self.restore_scope(depth, saved);
        let ghost back = *self;
        proof {
            lemma_deep_step(inner, deep, deep_after, *self);
        }
        let body_term = Expr::lets(self.bump, bindings.as_slice(), rest);
        self.leave();
        proof {
            lemma_scoped_step(outer, inner, back, *self);
            lemma_elab_step_transitive(*old(self), outer, *self);
        }
        let term = Expr::FunType {
            param: FunParam::new(param.data.plicity, name, arena_alloc(self.bump, ty)),
            body: arena_alloc(self.bump, body_term),
        };
        proof {
            assert(param_steps(annotated, outer, inner, annotation, name, (ty, ty_value)));
            assert(term@ == Term::FunType {
                plicity: param.data.plicity,
                name: name_text(name),
                ty: Box::new(ty@),
                body: Box::new(lets_term(bindings_model(bindings@), rest@)),
            });
            assert(rest_steps(deep, deep_after, back, bindings@, rest));
            assert(fun_type_outcome(*old(self), *expr, from as nat, term, *self));
        }
        term
    }

    /// The parameters from `from` on of a function literal, and its body:
    /// the term, and its type as a term.
    fn synth_fun_lit(&mut self, expr: &Located<surface::Expr>, from: usize) -> (r: (
        Expr<'core>,
        Expr<'core>,
    ))
        requires
            old(self).wf(),
            expr.data is FunLit,
        ensures
            elab_step(*old(self), *final(self)),
            fun_lit_outcome(*old(self), *expr, from as nat, r, *final(self)),
        decreases *expr, 1nat, expr.data->FunLit_params@.len() - from, 0nat,
    {
        let (params, body) = match expr.data {
            surface::Expr::FunLit { params, body } => (params, body),
            _ => {
                proof {
                    lemma_elab_step_reflexive(*self);
                }
                return (Expr::Error, Expr::Error);
            },
        };
        if from >= params.len() {
            let (term, ty) = self.synth_expr(body);
            let ghost found = *self;
            let ty_term = self.quote_or_report(body.range, &ty);
            proof {
                assert(synth_outcome(*old(self), *body, (term, ty), found));
                assert(read_back(found, *self, body.range, ty, ty_term));
                assert(body_steps(found, term, ty));
                assert(fun_lit_outcome(*old(self), *expr, from as nat, (term, ty_term), *self));
            }
            return (term, ty_term);
        }
        proof {
            assert(decreases_to!(*params => params[from as int]));
        }
        let param = params[from];
        let (name, ty, ty_value) = self.enter_fun_param(&param);
        let ghost inner = *self;
        let ghost (annotated, outer, annotation) = choose|
            annotated: Elaborator<'core, 'text>,
            typed: Elaborator<'core, 'text>,
            annotation: Option<Expr<'core>>,
        | #[trigger]
            entering_steps(annotated, typed, annotation) && param_outcome(
                *old(self),
                param,
                annotated,
                typed,
                inner,
                annotation,
                name,
                (ty, ty_value),
            ) && elab_step(*old(self), typed);
        let var = Value::local_var(AbsoluteVar { level: self.local_env.len().len - 1 });
        let depth = self.local_env.len();
        let saved = self.local_env.values;
        let bindings = self.enter_pattern(
            &param.data.pat,
            Expr::LocalVar(RelativeVar::new()),
            var,
            ty_value,
        );
        let ghost deep = *self;
        let rest = self.synth_fun_lit(expr, from + 1);
        let ghost deep_after = *self;
        self.restore_scope(depth, saved);
        let ghost back = *self;
        proof {
            lemma_deep_step(inner, deep, deep_after, *self);
        }
        let body_term = Expr::lets(self.bump, bindings.as_slice(), rest.0);
        self.leave();
        proof {
            lemma_scoped_step(outer, inner, back, *self);
            lemma_elab_step_transitive(*old(self), outer, *self);
        }
        let ty = arena_alloc(self.bump, ty);
        let term = Expr::FunLit {
            param: FunParam::new(param.data.plicity, name, ty),
            body: arena_alloc(self.bump, body_term),
        };
        let term_ty = Expr::FunType {
            param: FunParam::new(param.data.plicity, name, ty),
            body: arena_alloc(self.bump, rest.1),
        };
        proof {
            assert(param_steps(annotated, outer, inner, annotation, name, (*ty, ty_value)));
            assert(term@ == Term::FunLit {
                plicity: param.data.plicity,
                name: name_text(name),
                ty: Box::new(ty@),
                body: Box::new(lets_term(bindings_model(bindings@), rest.0@)),
            });
            assert(term_ty@ == Term::FunType {
                plicity: param.data.plicity,
                name: name_text(name),
                ty: Box::new(ty@),
                body: Box::new(rest.1@),
            });
            assert(lit_rest_steps(deep, deep_after, back, bindings@, rest));
            assert(fun_lit_outcome(*old(self), *expr, from as nat, (term, term_ty), *self));
        }
        (term, term_ty)
    }

    /// The parameters from `from` on of a function literal, and its body,
    /// held to the type `expected`.
    fn check_fun_lit(
        &mut self,
        expr: &Located<surface::Expr>,
        from: usize,
        expected: Type<'core>,
        budget: usize,
    ) -> (r: Expr<'core>)
        requires
            old(self).wf(),
            expr.data is FunLit,
        ensures
            elab_step(*old(self), *final(self)),
            check_lit_outcome(
                *old(self),
                *expr,
                from as nat,
                expected,
                budget as nat,
                r,
                *final(self),
            ),
        decreases *expr, 2nat, expr.data->FunLit_params@.len() - from, budget,
    {
        let (params, body) = match expr.data {
            surface::Expr::FunLit { params, body } => (params, body),
            _ => {
                proof {
                    lemma_elab_step_reflexive(*self);
                }
                return Expr::Error;
            },
        };
        if from >= params.len() {
            return self.check_expr(body, &expected);
        }
        proof {
            assert(decreases_to!(*params => params[from as int]));
        }
        let param = params[from];
        let forced = self.force_or_report(param.range, &expected);
        let ghost forced_state = *self;
        proof {
            assert(lit_forced(forced_state, forced));
        }
        let (wanted, wanted_body) = match forced {
            Value::FunType { param, body } => (param, body),
            _ => {
                let found = self.synth_fun_lit(expr, from);
                let ghost made = *self;
                let ty = self.eval_or_report(expr.range, &found.1);
                let ghost valued = *self;
                let r = self.convert(expr.range, found.0, ty, &expected);
                proof {
                    lemma_elab_step_transitive(*old(self), forced_state, made);
                    lemma_elab_step_transitive(*old(self), made, valued);
                    lemma_elab_step_transitive(*old(self), valued, *self);
                    assert(fun_lit_outcome(forced_state, *expr, from as nat, found, made));
                    assert(evaluated(made, valued, expr.range, found.1, ty));
                    assert(lit_found(made, valued, found, ty));
                    assert(check_lit_outcome(
                        *old(self),
                        *expr,
                        from as nat,
                        expected,
                        budget as nat,
                        r,
                        *self,
                    ));
                }
                return r;
            },
        };
        if param.data.plicity == Plicity::Explicit && wanted.plicity == Plicity::Implicit {
            if budget == 0 {
                self.report_error(param.range, Message::text("Evaluation limit reached"));
                proof {
                    lemma_elab_step_transitive(*old(self), forced_state, *self);
                }
                return Expr::Error;
            }
            let ty = self.quote_or_report(param.range, wanted.ty);
            let var = self.local_env.next_var();
            let ghost outer = *self;
            self.enter_param(wanted.name, *wanted.ty);
            let ghost inner = *self;
            let body_ty = self.apply_closure_or_report(param.range, &wanted_body, var);
            let ghost applied = *self;
            let rest = self.check_fun_lit(expr, from, body_ty, budget - 1);
            let ghost inner_after = *self;
            self.leave();
            let term = Expr::FunLit {
                param: FunParam::new(Plicity::Implicit, wanted.name, arena_alloc(self.bump, ty)),
                body: arena_alloc(self.bump, rest),
            };
            proof {
                lemma_elab_step_transitive(inner, applied, inner_after);
                lemma_scoped_step(outer, inner, inner_after, *self);
                lemma_elab_step_transitive(*old(self), forced_state, outer);
                lemma_elab_step_transitive(*old(self), outer, *self);
                assert(read_back(forced_state, outer, param.range, *wanted.ty, ty));
                assert(param_entered(outer, inner, wanted.name, *wanted.ty));
                assert(closure_applied(inner, applied, param.range, wanted_body, var, body_ty));
                assert(term@ == Term::FunLit {
                    plicity: Plicity::Implicit,
                    name: name_text(wanted.name),
                    ty: Box::new(ty@),
                    body: Box::new(rest@),
                });
                assert(lit_param(
                    outer,
                    inner,
                    applied,
                    inner_after,
                    inner_after,
                    ty,
                    body_ty,
                    rest,
                ));
                assert(check_lit_outcome(
                    *old(self),
                    *expr,
                    from as nat,
                    expected,
                    budget as nat,
                    term,
                    *self,
                ));
            }
            return term;
        }
        if param.data.plicity != wanted.plicity {
            let shown = self.pretty_value(&forced);
            let primary = Label::new(self.file_id, param.range).with_message(
                Message::text("implicit parameter"),
            );
            let secondary = Label::new(self.file_id, expr.range).with_message(
                Message::text("expected type ").then_text(shown.as_str()),
            );
            let diagnostic = Diagnostic::error(
                Message::text("Implicit parameter when explicit parameter was expected"),
                primary,
            ).with_secondary_label(secondary);
            proof {
                assert(expected_type_remark(shown@) == secondary.message->0@);
                assert(diagnostic.secondary_labels@[0] == secondary);
                assert(is_implicit_param_error(
                    diagnostic,
                    forced_state,
                    forced,
                    expr.range,
                    param.range,
                ));
            }
            self.diagnostics.push(diagnostic);
            proof {
                assert(check_lit_outcome(
                    *old(self),
                    *expr,
                    from as nat,
                    expected,
                    budget as nat,
                    Expr::Error,
                    *self,
                ));
            }
            return Expr::Error;
        }
        let ghost mut checked = *self;
        let ghost mut valued = *self;
        let ghost mut annotation = (Expr::Error, Value::Prim(Prim::Type));
        let ghost mut held = Expr::Error;
        match param.data.ty {
            Some(ty) => {
                let annotation_term = self.check_expr(&ty, &Self::type_type());
                proof {
                    checked = *self;
                }
                let annotation_value = self.eval_or_report(ty.range, &annotation_term);
                proof {
                    valued = *self;
                }
                let unified = self.hold_to(ty.range, annotation_term, &annotation_value, wanted.ty);
                proof {
                    annotation = (annotation_term, annotation_value);
                    held = unified;
                    lemma_elab_step_transitive(forced_state, checked, valued);
                    lemma_elab_step_transitive(forced_state, valued, *self);
                    assert(check_outcome(
                        forced_state,
                        ty,
                        Value::Prim(Prim::Type),
                        annotation_term,
                        checked,
                    ));
                    assert(evaluated(checked, valued, ty.range, annotation_term, annotation_value));
                }
            },
            None => {
                proof {
                    lemma_elab_step_reflexive(*self);
                }
            },
        }
        let ghost unified = *self;
        let name = match pat_name(&param.data.pat) {
            Some(name) => Some(self.intern(name)),
            None => None,
        };
        let ty = self.quote_or_report(param.range, wanted.ty);
        let var = self.local_env.next_var();
        let ghost outer = *self;
        self.enter_param(name, *wanted.ty);
        let ghost inner = *self;
        let body_ty = self.apply_closure_or_report(param.range, &wanted_body, var);
        let ghost applied = *self;
        let depth = self.local_env.len();
        let saved = self.local_env.values;
        let bindings = self.enter_pattern(
            &param.data.pat,
            Expr::LocalVar(RelativeVar::new()),
            var,
            *wanted.ty,
        );
        let ghost deep = *self;
        let rest = self.check_fun_lit(expr, from + 1, body_ty, budget);
        let ghost deep_after = *self;
        self.restore_scope(depth, saved);
        let ghost back = *self;
        proof {
            lemma_deep_step(applied, deep, deep_after, *self);
        }
        let body_term = Expr::lets(self.bump, bindings.as_slice(), rest);
        self.leave();
        let term = Expr::FunLit {
            param: FunParam::new(param.data.plicity, name, arena_alloc(self.bump, ty)),
            body: arena_alloc(self.bump, body_term),
        };
        proof {
            lemma_elab_step_transitive(inner, applied, back);
            lemma_scoped_step(outer, inner, back, *self);
            lemma_elab_step_transitive(*old(self), forced_state, unified);
            lemma_elab_step_transitive(*old(self), unified, outer);
            lemma_elab_step_transitive(*old(self), outer, *self);
            assert(read_back(unified, outer, param.range, *wanted.ty, ty));
            assert(param_entered(outer, inner, name, *wanted.ty));
            assert(closure_applied(inner, applied, param.range, wanted_body, var, body_ty));
            assert(term@ == Term::FunLit {
                plicity: param.data.plicity,
                name: name_text(name),
                ty: Box::new(ty@),
                body: Box::new(lets_term(bindings_model(bindings@), rest@)),
            });
            assert(lit_pattern(deep, bindings@));
            assert(lit_param(outer, inner, applied, deep_after, back, ty, body_ty, rest));
            assert(lit_annotated(checked, valued, unified, annotation, held, name));
            assert(check_lit_outcome(
                *old(self),
                *expr,
                from as nat,
                expected,
                budget as nat,
                term,
                *self,
            ));
        }
        term
    }
}

impl<'core, 'text> Elaborator<'core, 'text> {
    /// Goes back to the first `len` variables in scope, whose values are
    /// `values`.
    pub fn restore_scope(&mut self, len: EnvLen, values: crate::semantics::ValueEnv<'core>)
        requires
            old(self).wf(),
            len.len <= old(self).local_env.names@.len(),
            values@.len() == len.len,
        ensures
            restored(*old(self), *final(self), len.len as nat, values),
    {
        self.local_env.names.truncate(len);
        self.local_env.infos.truncate(len);
        self.local_env.types.truncate(len);
        self.local_env.values = values;
    }

    /// The value read back where `len` variables are in scope.
    fn quote_at_or_report(&mut self, range: TextRange, len: usize, value: &Value<'core>) -> (r:
        Expr<'core>)
        requires
            old(self).wf(),
        ensures
            elab_step(*old(self), *final(self)),
            final(self).meta_env == old(self).meta_env,
            read_back_at(*old(self), *final(self), range, len, *value, r),
    {
        let quote_env = crate::quote::QuoteEnv {
            elim_env: self.elim_env(),
            local_len: EnvLen { len },
        };
        let expr = quote_env.quote(value, self.fuel);
        match expr {
            Some(expr) => {
                proof {
                    lemma_elab_step_reflexive(*self);
                }
                expr
            },
            None => {
                self.report_error(range, Message::text("Evaluation limit reached"));
                Expr::Error
            },
        }
    }

    /// Elaborates a pattern against a scrutinee: the core pattern, and the
    /// bindings of its variables: for each its type and the projection of
    /// the scrutinee that it names.
    ///
    /// `expr` is the scrutinee as a term of the scope before the bindings,
    /// `value` its value and `ty` its type; `base` is the number of variables
    /// in that scope. The bindings are put after those in `bindings`: the
    /// initialiser of each is a term of the scope of the bindings before it.
    /// A literal is a pattern only where the pattern may fail to match,
    /// which `refutable` says.
    fn elab_pat(
        &mut self,
        pat: &Located<surface::Pat>,
        expr: Expr<'core>,
        value: Value<'core>,
        ty: Value<'core>,
        base: usize,
        bindings: &mut Vec<Binding<'core>>,
        refutable: bool,
    ) -> (r: crate::syntax::Pat<'core>)
        requires
            old(self).wf(),
        ensures
            elab_step(*old(self), *final(self)),
            pat_outcome(
                *old(self),
                *pat,
                expr,
                value,
                ty,
                base,
                old(bindings)@,
                refutable,
                r,
                final(bindings)@,
                *final(self),
            ),
        decreases *pat, 1nat, 0nat,
    {
        let range = pat.range;
        match pat.data {
            surface::Pat::Error => {
                proof {
                    lemma_elab_step_reflexive(*self);
                }
                crate::syntax::Pat::Error
            },
            surface::Pat::Underscore => {
                proof {
                    lemma_elab_step_reflexive(*self);
                }
                crate::syntax::Pat::Underscore
            },
            surface::Pat::Ident(name) => {
                let depth = match base.checked_add(bindings.len()) {
                    Some(depth) => depth,
                    None => {
                        self.report_error(range, Message::text("Evaluation limit reached"));
                        return crate::syntax::Pat::Error;
                    },
                };
                let ty_term = self.quote_at_or_report(range, depth, &ty);
                let init = match expr.checked_shift(self.bump, EnvLen { len: bindings.len() }) {
                    Some(init) => init,
                    None => Expr::Error,
                };
                let name = self.intern(name);
                bindings.push((Some(name), ty_term, init));
                proof {
                    assert(bound_steps(ty_term, init, name));
                }
                crate::syntax::Pat::Ident(name)
            },
            surface::Pat::Paren(inner) => self.elab_pat(
                inner,
                expr,
                value,
                ty,
                base,
                bindings,
                refutable,
            ),
            surface::Pat::Lit(lit) => {
                if !refutable {
                    self.report_error(
                        range,
                        Message::text("A literal pattern may fail to match: use `match`"),
                    );
                    return crate::syntax::Pat::Error;
                }
                let constant = match lit.base() {
                    None => {
                        let value = match lit {
                            surface::Const::Bool(value) => value,
                            _ => false,
                        };
                        Const::Bool(value)
                    },
                    Some(base) => match parse_int(self.text, range, base) {
                        Some(value) => Const::Int(value),
                        None => {
                            self.report_error(range, Message::text("Invalid integer literal"));
                            return crate::syntax::Pat::Error;
                        },
                    },
                };
                let lit_ty = match constant {
                    Const::Bool(_) => Value::Prim(Prim::Bool),
                    Const::Int(_) => Value::Prim(Prim::Int),
                };
                let held = self.hold_to(range, Expr::Lit(constant), &lit_ty, &ty);
                proof {
                    assert(lit_held(held));
                }
                match held {
                    Expr::Lit(_) => crate::syntax::Pat::Lit(constant),
                    _ => crate::syntax::Pat::Error,
                }
            },
            surface::Pat::Tuple(_) | surface::Pat::RecordLit(_) => {
                let forced = self.force_or_report(range, &ty);
                let ghost forced_state = *self;
                proof {
                    assert(pat_forced(forced_state, forced));
                }
                match forced {
                    Value::RecordType(telescope) => {
                        let mut fields: Vec<(Symbol<'core>, crate::syntax::Pat<'core>)> = Vec::new();
                        let complete = self.elab_pat_fields(
                            pat,
                            0,
                            expr,
                            value,
                            telescope.env,
                            telescope.fields,
                            telescope.start,
                            base,
                            bindings,
                            &mut fields,
                            refutable,
                        );
                        proof {
                            lemma_elab_step_transitive(*old(self), forced_state, *self);
                            assert(pat_fields_found(complete, fields@));
                        }
                        if complete {
                            crate::syntax::Pat::RecordLit(arena_alloc(self.bump, fields))
                        } else {
                            crate::syntax::Pat::Error
                        }
                    },
                    Value::Neutral(Head::Error, _) => crate::syntax::Pat::Error,
                    _ => {
                        let shown = self.pretty_value(&forced);
                        let message = Message::text("Expected record, found `").then_text(
                            shown.as_str(),
                        ).then_text("`");
                        proof {
                            assert(message@ == not_record_message(shown@));
                        }
                        self.report_error(range, message);
                        proof {
                            lemma_elab_step_transitive(*old(self), forced_state, *self);
                            assert(is_error(
                                self.diagnostics@.last(),
                                old(self).file_id,
                                range,
                                not_record_message(shown@),
                            ));
                        }
                        crate::syntax::Pat::Error
                    },
                }
            },
        }
    }

    /// Elaborates the components from `from` on of a tuple or record
    /// pattern, for the fields from `start` on of a telescope. Returns
    /// whether the pattern and the telescope have the same fields.
    fn elab_pat_fields(
        &mut self,
        pat: &Located<surface::Pat>,
        from: usize,
        expr: Expr<'core>,
        value: Value<'core>,
        env: ValueEnv<'core>,
        fields: &'core Vec<(Symbol<'core>, Expr<'core>)>,
        start: usize,
        base: usize,
        bindings: &mut Vec<Binding<'core>>,
        out: &mut Vec<(Symbol<'core>, crate::syntax::Pat<'core>)>,
        refutable: bool,
    ) -> (complete: bool)
        requires
            old(self).wf(),
            pat.data is Tuple || pat.data is RecordLit,
        ensures
            elab_step(*old(self), *final(self)),
            pat_fields_outcome(
                *old(self),
                *pat,
                from as nat,
                expr,
                value,
                env,
                fields@,
                start as nat,
                base,
                old(bindings)@,
                old(out)@,
                refutable,
                complete,
                final(out)@,
                final(bindings)@,
                *final(self),
            ),
        decreases *pat, 0nat, pat_count(*pat) - from,
    {
        let range = pat.range;
        let count = match pat.data {
            surface::Pat::Tuple(pats) => pats.len(),
            surface::Pat::RecordLit(pats) => pats.len(),
            _ => 0,
        };
        if from >= count || start >= fields.len() {
            if from < count || start < fields.len() {
                self.report_error(
                    range,
                    Message::text("The pattern and the record have different numbers of fields"),
                );
                return false;
            } else {
                proof {
                    lemma_elab_step_reflexive(*self);
                }
                return true;
            }
        }
        let (label, field_ty) = fields[start];
        let label_matches = match pat.data {
            surface::Pat::Tuple(_) => label.is_tuple_label(from),
            surface::Pat::RecordLit(pats) => pats[from].name.data == label,
            _ => false,
        };
        if !label_matches {
            let message = Message::text("Expected field `").then_text(label.as_str()).then_text(
                "`",
            );
            proof {
                assert(message@ == expected_field_message(label@));
            }
            self.report_error(range, message);
            return false;
        }
        let field_ty = self.elim_env().eval(env, &field_ty, self.fuel);
        let field_ty = match field_ty {
            Some(field_ty) => field_ty,
            None => {
                self.report_error(range, Message::text("Evaluation limit reached"));
                return false;
            },
        };
        let field_value = self.elim_env().project(value, label);
        let field_expr = Expr::RecordProj(arena_alloc(self.bump, expr), label);
        let sub = match pat.data {
            surface::Pat::Tuple(pats) => {
                proof {
                    assert(decreases_to!(*pats => pats[from as int]));
                }
                self.elab_pat(
                    &pats[from],
                    field_expr,
                    field_value,
                    field_ty,
                    base,
                    bindings,
                    refutable,
                )
            },
            surface::Pat::RecordLit(pats) => {
                proof {
                    assert(decreases_to!(*pats => pats[from as int]));
                }
                self.elab_pat(
                    &pats[from].pat,
                    field_expr,
                    field_value,
                    field_ty,
                    base,
                    bindings,
                    refutable,
                )
            },
            _ => crate::syntax::Pat::Error,
        };
        let ghost found = *self;
        let ghost sub_bindings = bindings@;
        out.push((label, sub));
        let mut inner = env;
        inner.push(self.bump, field_value);
        let complete = self.elab_pat_fields(
            pat,
            from + 1,
            expr,
            value,
            inner,
            fields,
            start + 1,
            base,
            bindings,
            out,
            refutable,
        );
        proof {
            lemma_elab_step_transitive(*old(self), found, *self);
            assert(pat_field_steps(found, sub, sub_bindings));
        }
        complete
    }

    /// Brings the variables of a pattern into scope, each bound to the part
    /// of the scrutinee that it names, and returns their bindings. A pattern
    /// that takes nothing apart binds nothing here: its variable, if it has
    /// one, is the scrutinee itself.
    fn enter_pattern(
        &mut self,
        pat: &Located<surface::Pat>,
        expr: Expr<'core>,
        value: Value<'core>,
        ty: Value<'core>,
    ) -> (bindings: Vec<Binding<'core>>)
        requires
            old(self).wf(),
        ensures
            deepened(*old(self), *final(self)),
            pattern_entered(*old(self), *pat, expr, value, ty, bindings@, *final(self)),
    {
        let mut bindings: Vec<Binding<'core>> = Vec::new();
        if !pat_destructures(pat) {
            proof {
                lemma_elab_step_reflexive(*self);
            }
            return bindings;
        }
        let base = self.local_env.len().len;
        let core_pat = self.elab_pat(pat, expr, value, ty, base, &mut bindings, false);
        let ghost patterned = *self;
        let ghost found = bindings@;
        self.enter_bindings(pat.range, &mut bindings);
        proof {
            lemma_deepen_deepened_step(*old(self), patterned, *self);
            assert(pattern_steps(patterned, core_pat, found));
        }
        bindings
    }

    /// Brings the bindings into scope. Those whose evaluation runs out of
    /// fuel, and those after them, are taken out of `bindings`, which is
    /// reported.
    fn enter_bindings(&mut self, range: TextRange, bindings: &mut Vec<Binding<'core>>)
        requires
            old(self).wf(),
        ensures
            deepened(*old(self), *final(self)),
            final(self).local_env.names@.len() == old(self).local_env.names@.len()
                + final(bindings)@.len(),
            final(bindings)@.len() <= old(bindings)@.len(),
            bindings_entered(
                *old(self),
                *final(self),
                range,
                old(bindings)@,
                final(bindings)@,
            ),
    {
        let count = self.push_let_bindings(bindings.as_slice());
        if count < bindings.len() {
            bindings.truncate(count);
            let ghost pushed = *self;
            self.report_error(range, Message::text("Evaluation limit reached"));
            proof {
                assert(self.diagnostics@.drop_last() =~= pushed.diagnostics@);
            }
        }
        proof {
            assert(bindings@ =~= old(bindings)@.take(count as int));
        }
    }
}

impl<'core, 'text> Elaborator<'core, 'text> {
    /// The label of the component `index` of a tuple, in the arena.
    fn tuple_label(&self, index: usize) -> (r: Symbol<'core>)
        ensures
            r@ == crate::symbol::tuple_label(index as nat),
    {
        let text = tuple_label_string(index);
        Symbol::new(arena_alloc_str(self.bump, text.as_str()))
    }

    /// A `let`: its bindings in scope around its body, which is held to the
    /// type `expected` where there is one.
    fn elab_let(&mut self, expr: &Located<surface::Expr>, expected: Option<Type<'core>>) -> (r: (
        Expr<'core>,
        Type<'core>,
    ))
        requires
            old(self).wf(),
            expr.data is Let,
        ensures
            elab_step(*old(self), *final(self)),
            let_outcome(*old(self), *expr, expected, r, *final(self)),
            expected is Some ==> r.1 == expected->0,
        decreases *expr, 2nat, 0nat, 0nat,
    {
        let (pat, ty, init, body) = match expr.data {
            surface::Expr::Let { pat, ty, init, body, .. } => (pat, ty, init, body),
            _ => {
                proof {
                    lemma_elab_step_reflexive(*self);
                }
                return (Expr::Error, Value::error());
            },
        };
        let annotation = match ty {
            Some(ty) => Some(self.check_expr(ty, &Self::type_type())),
            None => None,
        };
        let ghost annotated = *self;
        let name = match pat_name(pat) {
            Some(name) => Some(self.intern(name)),
            None => None,
        };
        let (ty_term, ty_value) = self.let_type(pat.range, name, annotation);
        let ghost typed = *self;
        let init_term = self.check_expr(init, &ty_value);
        let ghost checked = *self;
        let init_value = self.eval_or_report(init.range, &init_term);
        let ghost outer = *self;
        proof {
            assert(check_outcome(typed, *init, ty_value, init_term, checked));
            assert(evaluated(checked, outer, init.range, init_term, init_value));
            assert(let_steps(
                annotated,
                typed,
                checked,
                outer,
                annotation,
                name,
                (ty_term, ty_value),
                (init_term, init_value),
            ));
        }
        let depth = self.local_env.len();
        let saved = self.local_env.values;
        let mut bindings: Vec<Binding<'core>> = Vec::new();
        let core_pat = if pat_destructures(pat) {
            self.elab_pat(pat, init_term, init_value, ty_value, depth.len, &mut bindings, false)
        } else {
            if name.is_some() {
                bindings.push((name, ty_term, init_term));
                assert(bindings@ =~= seq![(name, ty_term, init_term)]);
            }
            proof {
                lemma_elab_step_reflexive(outer);
            }
            crate::syntax::Pat::Underscore
        };
        let ghost entering = bindings@;
        let ghost entering_from = *self;
        self.enter_bindings(pat.range, &mut bindings);
        let ghost deep = *self;
        proof {
            lemma_deepen_deepened_step(outer, entering_from, deep);
        }
        let (body_term, body_ty) = match expected {
            Some(expected) => (self.check_expr(body, &expected), expected),
            None => self.synth_expr(body),
        };
        let ghost deep_after = *self;
        self.restore_scope(depth, saved);
        proof {
            lemma_deep_step(outer, deep, deep_after, *self);
        }
        let term = Expr::lets(self.bump, bindings.as_slice(), body_term);
        proof {
            assert(bindings_entered(entering_from, deep, pat.range, entering, bindings@));
            assert(let_body_steps(
                entering_from,
                deep,
                deep_after,
                core_pat,
                entering,
                bindings@,
                (body_term, body_ty),
            ));
            assert(let_outcome(*old(self), *expr, expected, (term, body_ty), *self));
        }
        (term, body_ty)
    }

    /// The binding of a `let rec` of the name `name` and the type `ty`.
    fn elab_rec_init(
        &mut self,
        init: &Located<surface::Expr>,
        name: Option<Symbol<'core>>,
        ty: Type<'core>,
    ) -> (r: Expr<'core>)
        requires
            old(self).wf(),
        ensures
            elab_step(*old(self), *final(self)),
            rec_init_outcome(*old(self), *init, name, ty, r, *final(self)),
        decreases *init, 5nat, 0nat, 0nat,
    {
        let is_fun_lit = match init.data {
            surface::Expr::FunLit { .. } => true,
            _ => false,
        };
        if is_fun_lit {
            self.enter_param(name, ty);
            let ghost inner = *self;
            let term = self.check_expr(init, &ty);
            let ghost inner_after = *self;
            self.leave();
            proof {
                lemma_scoped_step(*old(self), inner, inner_after, *self);
                assert(rec_init_steps(inner, inner_after));
            }
            term
        } else {
            self.report_error(
                init.range,
                Message::text("The binding of a `let rec` must be a function literal"),
            );
            Expr::Error
        }
    }

    /// The fixed point that a `let rec` binds.
    fn fix_point(
        &mut self,
        range: TextRange,
        is_fun_lit: bool,
        name: Option<Symbol<'core>>,
        ty: (Expr<'core>, Type<'core>),
        init: Expr<'core>,
    ) -> (r: Expr<'core>)
        requires
            old(self).wf(),
        ensures
            elab_step(*old(self), *final(self)),
            fixed(*old(self), *final(self), range, is_fun_lit, name, ty, init, r),
    {
        let forced = self.force_or_report(range, &ty.1);
        let ghost forced_state = *self;
        proof {
            assert(fix_forced(forced_state, forced));
        }
        match forced {
            Value::FunType { param, body: result } => {
                if is_fun_lit {
                    let param_ty = self.quote_or_report(range, param.ty);
                    let ghost quoted = *self;
                    let var = self.local_env.next_var();
                    let result_value = self.apply_closure_or_report(range, &result, var);
                    let ghost applied = *self;
                    let result_ty = self.quote_or_report(range, &result_value);
                    let builder = TermBuilder { bump: self.bump };
                    let step = Expr::FunLit {
                        param: FunParam::new(Plicity::Explicit, name, arena_alloc(self.bump, ty.0)),
                        body: arena_alloc(self.bump, init),
                    };
                    let fix = builder.app(Expr::Prim(Prim::Fix), Plicity::Implicit, param_ty);
                    let fix = builder.app(fix, Plicity::Implicit, result_ty);
                    let fix = builder.app(fix, Plicity::Explicit, step);
                    proof {
                        lemma_elab_step_transitive(*old(self), forced_state, quoted);
                        lemma_elab_step_transitive(*old(self), quoted, applied);
                        lemma_elab_step_transitive(*old(self), applied, *self);
                        assert(read_back(forced_state, quoted, range, *param.ty, param_ty));
                        assert(closure_applied(quoted, applied, range, result, var, result_value));
                        assert(read_back(applied, *self, range, result_value, result_ty));
                        assert(Expr::Prim(Prim::Fix)@ == Term::Prim(Prim::Fix));
                        assert(step@ == Term::FunLit {
                            plicity: Plicity::Explicit,
                            name: name_text(name),
                            ty: Box::new(ty.0@),
                            body: Box::new(init@),
                        });
                        assert(fix@ == fix_term(
                            param_ty@,
                            result_ty@,
                            name_text(name),
                            ty.0@,
                            init@,
                        ));
                        assert(fix_steps(quoted, applied, param_ty, result_value, result_ty));
                    }
                    fix
                } else {
                    Expr::Error
                }
            },
            Value::Neutral(Head::Error, _) => Expr::Error,
            _ => {
                if is_fun_lit {
                    let shown = self.pretty_value(&forced);
                    let message = Message::text(
                        "Expected the type of a function for `let rec`, found `",
                    ).then_text(shown.as_str()).then_text("`");
                    proof {
                        assert(message@ == rec_type_message(shown@));
                    }
                    self.report_error(range, message);
                    proof {
                        lemma_elab_step_transitive(*old(self), forced_state, *self);
                        assert(is_error(
                            self.diagnostics@.last(),
                            old(self).file_id,
                            range,
                            rec_type_message(shown@),
                        ));
                    }
                }
                Expr::Error
            },
        }
    }

    /// A `let rec`: the binding as the fixed point of a function of itself.
    fn elab_let_rec(&mut self, expr: &Located<surface::Expr>, expected: Option<Type<'core>>) -> (r: (
        Expr<'core>,
        Type<'core>,
    ))
        requires
            old(self).wf(),
            expr.data is Let,
        ensures
            elab_step(*old(self), *final(self)),
            let_rec_outcome(*old(self), *expr, expected, r, *final(self)),
            expected is Some ==> r.1 == expected->0,
        decreases *expr, 2nat, 0nat, 0nat,
    {
        let (pat, ty, init, body) = match expr.data {
            surface::Expr::Let { pat, ty, init, body, .. } => (pat, ty, init, body),
            _ => {
                proof {
                    lemma_elab_step_reflexive(*self);
                }
                return (Expr::Error, Value::error());
            },
        };
        let annotation = match ty {
            Some(ty) => Some(self.check_expr(ty, &Self::type_type())),
            None => None,
        };
        let ghost annotated = *self;
        let name = match pat_name(pat) {
            Some(name) => Some(self.intern(name)),
            None => None,
        };
        let ty_found = self.let_type(pat.range, name, annotation);
        let ghost typed = *self;
        let is_fun_lit = match init.data {
            surface::Expr::FunLit { .. } => true,
            _ => false,
        };
        let init_term = self.elab_rec_init(init, name, ty_found.1);
        let ghost checked = *self;
        let fix = self.fix_point(pat.range, is_fun_lit, name, ty_found, init_term);
        let ghost fixed_state = *self;
        let value = self.eval_or_report(init.range, &fix);
        let ghost outer = *self;
        self.enter_let(name, ty_found.1, value);
        let ghost inner = *self;
        let (body_term, body_ty) = match expected {
            Some(expected) => (self.check_expr(body, &expected), expected),
            None => self.synth_expr(body),
        };
        let ghost inner_after = *self;
        self.leave();
        let term = Expr::Let {
            name,
            ty: arena_alloc(self.bump, ty_found.0),
            init: arena_alloc(self.bump, fix),
            body: arena_alloc(self.bump, body_term),
        };
        proof {
            lemma_scoped_step(outer, inner, inner_after, *self);
            lemma_elab_step_transitive(*old(self), annotated, typed);
            lemma_elab_step_transitive(*old(self), typed, checked);
            lemma_elab_step_transitive(*old(self), checked, fixed_state);
            lemma_elab_step_transitive(*old(self), fixed_state, outer);
            lemma_elab_step_transitive(*old(self), outer, *self);
            assert(evaluated(fixed_state, outer, init.range, fix, value));
            assert(let_entered(outer, inner, name, ty_found.1, value));
            assert(term@ == Term::Let {
                name: name_text(name),
                ty: Box::new(ty_found.0@),
                init: Box::new(fix@),
                body: Box::new(body_term@),
            });
            assert(let_rec_body(
                inner,
                inner_after,
                init_term,
                (fix, value),
                (body_term, body_ty),
            ));
            assert(let_rec_steps(
                annotated,
                typed,
                checked,
                fixed_state,
                outer,
                annotation,
                name,
                ty_found,
            ));
            assert(let_rec_outcome(*old(self), *expr, expected, (term, body_ty), *self));
        }
        (term, body_ty)
    }

    /// The number of components of a tuple or of fields of a record.
    fn field_count(expr: &Located<surface::Expr>) -> (n: usize)
        ensures
            n == field_count_spec(*expr),
    {
        match expr.data {
            surface::Expr::TupleLit(elems) => elems.len(),
            surface::Expr::RecordLit(fields) => fields.len(),
            _ => 0,
        }
    }

    /// The label of the component or field `index`.
    fn field_label(&self, expr: &Located<surface::Expr>, index: usize) -> (r: Symbol<'core>)
        requires
            index < field_count_spec(*expr),
        ensures
            r@ == field_text(*expr, index as nat),
    {
        match expr.data {
            surface::Expr::RecordLit(fields) => self.intern(fields[index].name.data),
            _ => self.tuple_label(index),
        }
    }

    /// The type of the items of the lists of type `ty`, where `ty` is the
    /// type of lists of some type.
    fn item_type(ty: &Type<'core>) -> (r: Option<Type<'core>>)
        ensures
            r == item_type_of(*ty),
    {
        match *ty {
            Value::Neutral(Head::Prim(Prim::List), SharedEnv::Entry(entry)) => match (
                entry.rest,
                entry.top,
            ) {
                (SharedEnv::Empty, Elim::FunApp(arg)) => {
                    assert(entry.rest@.len() == 0);
                    Some(*arg.expr)
                },
                (SharedEnv::Empty, _) => {
                    assert(entry.rest@.len() == 0);
                    None
                },
                (SharedEnv::Entry(_), _) => {
                    assert(entry.rest@.len() > 0);
                    None
                },
            },
            Value::Neutral(Head::Prim(Prim::List), SharedEnv::Empty) => None,
            _ => None,
        }
    }

    /// The items from `from` on of a list literal, put after `items`; and
    /// the type that an item after the last would be held to.
    fn elab_items(
        &mut self,
        expr: &Located<surface::Expr>,
        from: usize,
        item_ty: Option<Type<'core>>,
        items: &mut Vec<Expr<'core>>,
    ) -> (last_ty: Option<Type<'core>>)
        requires
            old(self).wf(),
            expr.data is ListLit,
        ensures
            elab_step(*old(self), *final(self)),
            items_outcome(
                *old(self),
                *expr,
                from as nat,
                item_ty,
                old(items)@,
                final(items)@,
                last_ty,
                *final(self),
            ),
        decreases *expr, 1nat, expr.data->ListLit_0@.len() - from, 0nat,
    {
        let elems = match expr.data {
            surface::Expr::ListLit(elems) => elems,
            _ => {
                proof {
                    lemma_elab_step_reflexive(*self);
                }
                return item_ty;
            },
        };
        if from >= elems.len() {
            proof {
                lemma_elab_step_reflexive(*self);
            }
            return item_ty;
        }
        proof {
            assert(decreases_to!(*elems => elems[from as int]));
        }
        let (item, ty) = match item_ty {
            Some(held) => (self.check_expr(&elems[from], &held), held),
            None => self.synth_expr(&elems[from]),
        };
        let ghost found = *self;
        items.push(item);
        let last_ty = self.elab_items(expr, from + 1, Some(ty), items);
        proof {
            lemma_elab_step_transitive(*old(self), found, *self);
            assert(item_steps(found, item, ty));
            assert(items_outcome(
                found,
                *expr,
                (from + 1) as nat,
                Some(ty),
                old(items)@.push(item),
                items@,
                last_ty,
                *self,
            ));
        }
        last_ty
    }

    /// A list literal. Each item is held to the type `item_ty`; without it,
    /// to the type of the first item, or, where there is no item, to a
    /// fresh metavariable.
    fn elab_list(&mut self, expr: &Located<surface::Expr>, item_ty: Option<Type<'core>>) -> (r: (
        Expr<'core>,
        Type<'core>,
    ))
        requires
            old(self).wf(),
            expr.data is ListLit,
        ensures
            elab_step(*old(self), *final(self)),
            list_outcome(*old(self), *expr, item_ty, r, *final(self)),
        decreases *expr, 2nat, 0nat, 0nat,
    {
        let range = expr.range;
        let elems = match expr.data {
            surface::Expr::ListLit(elems) => elems,
            _ => {
                proof {
                    lemma_elab_step_reflexive(*self);
                }
                return (Expr::Error, Value::error());
            },
        };
        proof {
            lemma_elab_step_reflexive(*self);
        }
        let first_ty = if elems.len() == 0 && item_ty.is_none() {
            Some(self.fresh_type(range, MetaSource::ListElemType { range }))
        } else {
            item_ty
        };
        let ghost first = *self;
        let mut items: Vec<Expr<'core>> = Vec::new();
        let last_ty = self.elab_items(expr, 0, first_ty, &mut items);
        let ghost walked = *self;
        let found_ty = match last_ty {
            Some(ty) => ty,
            None => Value::error(),
        };
        let ty_term = self.quote_or_report(range, &found_ty);
        let ghost quoted = *self;
        let list_ty = (TermBuilder { bump: self.bump }).list(ty_term);
        let list_value = self.eval_or_report(range, &list_ty);
        let list = Expr::list(self.bump, ty_term, &items);
        proof {
            lemma_elab_step_transitive(*old(self), first, walked);
            lemma_elab_step_transitive(*old(self), walked, quoted);
            lemma_elab_step_transitive(*old(self), quoted, *self);
            assert(items_outcome(first, *expr, 0, first_ty, Seq::empty(), items@, last_ty, walked));
            assert(read_back(walked, quoted, range, found_ty, ty_term));
            assert(evaluated(quoted, *self, range, list_ty, list_value));
            assert(list_steps(first, walked, quoted, first_ty, last_ty, items@, ty_term, list_ty));
            assert(list_outcome(*old(self), *expr, item_ty, (list, list_value), *self));
        }
        (list, list_value)
    }

    /// The components or fields from `from` on of a tuple or record literal:
    /// their terms and their types, each with its label, put after `terms`
    /// and `types`.
    fn synth_fields(
        &mut self,
        expr: &Located<surface::Expr>,
        from: usize,
        depth: usize,
        terms: &mut Vec<(Symbol<'core>, Expr<'core>)>,
        types: &mut Vec<(Symbol<'core>, Expr<'core>)>,
    )
        requires
            old(self).wf(),
            expr.data is TupleLit || expr.data is RecordLit,
        ensures
            elab_step(*old(self), *final(self)),
            fields_outcome(
                *old(self),
                *expr,
                from as nat,
                depth,
                old(terms)@,
                old(types)@,
                final(terms)@,
                final(types)@,
                *final(self),
            ),
        decreases *expr, 1nat, field_count_spec(*expr) - from, 0nat,
    {
        let count = Self::field_count(expr);
        if from >= count {
            proof {
                lemma_elab_step_reflexive(*self);
            }
            return ;
        }
        let label = self.field_label(expr, from);
        let field = match expr.data {
            surface::Expr::TupleLit(elems) => {
                proof {
                    assert(decreases_to!(*elems => elems[from as int]));
                }
                self.synth_expr(&elems[from])
            },
            surface::Expr::RecordLit(fields) => {
                proof {
                    assert(decreases_to!(*fields => fields[from as int]));
                }
                self.synth_expr(&fields[from].expr)
            },
            _ => (Expr::Error, Value::error()),
        };
        let ghost found = *self;
        let ty_term = match depth.checked_add(from) {
            Some(at) => self.quote_at_or_report(expr.range, at, &field.1),
            None => Expr::Error,
        };
        let ghost quoted = *self;
        terms.push((label, field.0));
        types.push((label, ty_term));
        self.synth_fields(expr, from + 1, depth, terms, types);
        proof {
            lemma_elab_step_transitive(*old(self), found, quoted);
            lemma_elab_step_transitive(*old(self), quoted, *self);
            assert(field_found(found, quoted, label, field, ty_term));
            assert(fields_outcome(
                quoted,
                *expr,
                (from + 1) as nat,
                depth,
                old(terms)@.push((label, field.0)),
                old(types)@.push((label, ty_term)),
                terms@,
                types@,
                *self,
            ));
        }
    }

    /// A tuple or a record: the type is the record type of the types of the
    /// fields.
    fn synth_record_lit(&mut self, expr: &Located<surface::Expr>) -> (r: (Expr<'core>, Type<'core>))
        requires
            old(self).wf(),
            expr.data is TupleLit || expr.data is RecordLit,
        ensures
            elab_step(*old(self), *final(self)),
            record_lit_outcome(*old(self), *expr, r, *final(self)),
        decreases *expr, 1nat, field_count_spec(*expr) + 1, 0nat,
    {
        let depth = self.local_env.len().len;
        let mut terms: Vec<(Symbol<'core>, Expr<'core>)> = Vec::new();
        let mut types: Vec<(Symbol<'core>, Expr<'core>)> = Vec::new();
        self.synth_fields(expr, 0, depth, &mut terms, &mut types);
        let ghost walked = *self;
        let ghost found_terms = terms@;
        let ghost found_types = types@;
        let ty = Expr::RecordType(arena_alloc(self.bump, types));
        let ty_value = self.eval_or_report(expr.range, &ty);
        let term = Expr::RecordLit(arena_alloc(self.bump, terms));
        proof {
            lemma_elab_step_transitive(*old(self), walked, *self);
            assert(evaluated(walked, *self, expr.range, ty, ty_value));
            assert(record_steps(walked, found_terms, found_types, ty));
            assert(record_lit_outcome(*old(self), *expr, (term, ty_value), *self));
        }
        (term, ty_value)
    }

    /// Whether the labels of a tuple or record are those of the fields of a
    /// telescope, in order.
    fn labels_match(
        &self,
        expr: &Located<surface::Expr>,
        fields: &Vec<(Symbol<'core>, Expr<'core>)>,
        start: usize,
    ) -> (r: bool)
        ensures
            r == labels_agree(*expr, fields@, start as nat),
    {
        let count = Self::field_count(expr);
        let total = fields.len();
        if start > total || total - start != count {
            return false;
        }
        let mut i: usize = 0;
        while i < count
            invariant
                i <= count,
                count == field_count_spec(*expr),
                start + count == total,
                total == fields@.len(),
                forall|k: int|
                    0 <= k < i ==> (#[trigger] fields@[start + k]).0@ == field_text(
                        *expr,
                        k as nat,
                    ),
            decreases count - i,
        {
            let matches = match expr.data {
                surface::Expr::RecordLit(names) => names[i].name.data == fields[start + i].0,
                _ => fields[start + i].0.is_tuple_label(i),
            };
            if !matches {
                assert(fields@[start + i].0@ != field_text(*expr, i as nat));
                return false;
            }
            i += 1;
        }
        true
    }

    /// The components from `from` on of a tuple, as types: each in the
    /// scope of those before it, put with its label after `types`.
    fn check_tuple_types(
        &mut self,
        expr: &Located<surface::Expr>,
        from: usize,
        types: &mut Vec<(Symbol<'core>, Expr<'core>)>,
    )
        requires
            old(self).wf(),
            expr.data is TupleLit,
        ensures
            deepened(*old(self), *final(self)),
            tuple_types_outcome(
                *old(self),
                *expr,
                from as nat,
                old(types)@,
                final(types)@,
                *final(self),
            ),
        decreases *expr, 1nat, expr.data->TupleLit_0@.len() - from, 0nat,
    {
        let elems = match expr.data {
            surface::Expr::TupleLit(elems) => elems,
            _ => {
                proof {
                    lemma_elab_step_reflexive(*self);
                }
                return ;
            },
        };
        if from >= elems.len() {
            proof {
                lemma_elab_step_reflexive(*self);
            }
            return ;
        }
        proof {
            assert(decreases_to!(*elems => elems[from as int]));
        }
        let label = self.tuple_label(from);
        let ty = self.check_expr(&elems[from], &Self::type_type());
        let ghost checked = *self;
        let ty_value = self.eval_or_report(elems[from].range, &ty);
        let ghost valued = *self;
        self.enter_param(None, ty_value);
        let ghost inner = *self;
        types.push((label, ty));
        self.check_tuple_types(expr, from + 1, types);
        proof {
            lemma_elab_step_transitive(*old(self), checked, valued);
            lemma_elab_step_reflexive(*old(self));
            lemma_deepen_entered(*old(self), *old(self), valued, inner);
            lemma_deepen_deepened(*old(self), inner, *self);
            assert(check_outcome(
                *old(self),
                elems@[from as int],
                Value::Prim(Prim::Type),
                ty,
                checked,
            ));
            assert(evaluated(checked, valued, elems@[from as int].range, ty, ty_value));
            assert(param_entered(valued, inner, None, ty_value));
            assert(component_steps(checked, valued, inner, label, (ty, ty_value)));
        }
    }

    /// The components or fields from `from` on of a tuple or record, held
    /// to the types of the fields of a telescope: their terms, each with its
    /// label, put after `terms`.
    fn check_fields(
        &mut self,
        expr: &Located<surface::Expr>,
        from: usize,
        fields: &'core Vec<(Symbol<'core>, Expr<'core>)>,
        start: usize,
        env: ValueEnv<'core>,
        terms: &mut Vec<(Symbol<'core>, Expr<'core>)>,
    )
        requires
            old(self).wf(),
            expr.data is TupleLit || expr.data is RecordLit,
            start + field_count_spec(*expr) == fields@.len(),
        ensures
            elab_step(*old(self), *final(self)),
            held_fields_outcome(
                *old(self),
                *expr,
                from as nat,
                fields@,
                start as nat,
                env,
                old(terms)@,
                final(terms)@,
                *final(self),
            ),
        decreases *expr, 1nat, field_count_spec(*expr) - from, 0nat,
    {
        let count = Self::field_count(expr);
        if from >= count {
            proof {
                lemma_elab_step_reflexive(*self);
            }
            return ;
        }
        let total = fields.len();
        assert(start + from < total);
        let (label, field_ty) = fields[start + from];
        let ty = self.elim_env().eval(env, &field_ty, self.fuel);
        let ty = match ty {
            Some(ty) => {
                proof {
                    lemma_elab_step_reflexive(*self);
                }
                ty
            },
            None => {
                self.report_error(expr.range, Message::text("Evaluation limit reached"));
                Value::error()
            },
        };
        let ghost typed = *self;
        let (term, range) = match expr.data {
            surface::Expr::TupleLit(elems) => {
                proof {
                    assert(decreases_to!(*elems => elems[from as int]));
                }
                (self.check_expr(&elems[from], &ty), elems[from].range)
            },
            surface::Expr::RecordLit(names) => {
                proof {
                    assert(decreases_to!(*names => names[from as int]));
                }
                (self.check_expr(&names[from].expr, &ty), names[from].expr.range)
            },
            _ => (Expr::Error, expr.range),
        };
        let ghost checked = *self;
        let value = self.eval_or_report(range, &term);
        let ghost valued = *self;
        let mut inner = env;
        inner.push(self.bump, value);
        terms.push((label, term));
        self.check_fields(expr, from + 1, fields, start, inner, terms);
        proof {
            lemma_elab_step_transitive(*old(self), typed, checked);
            lemma_elab_step_transitive(*old(self), checked, valued);
            lemma_elab_step_transitive(*old(self), valued, *self);
            assert(held_field_steps(typed, checked, valued, ty, (term, value)));
        }
    }

    /// The type of a tuple or record literal, converted to `expected`.
    fn convert_record(&mut self, expr: &Located<surface::Expr>, expected: &Type<'core>) -> (r:
        Expr<'core>)
        requires
            old(self).wf(),
            expr.data is TupleLit || expr.data is RecordLit,
        ensures
            elab_step(*old(self), *final(self)),
            record_converted(*old(self), *expr, *expected, r, *final(self)),
        decreases *expr, 1nat, field_count_spec(*expr) + 2, 0nat,
    {
        let record = self.synth_record_lit(expr);
        let ghost found = *self;
        let r = self.convert(expr.range, record.0, record.1, expected);
        proof {
            lemma_elab_step_transitive(*old(self), found, *self);
            assert(record_found(found, record));
        }
        r
    }

    /// A tuple or a record, held to the type `expected`: a tuple of types
    /// where a type is expected; the fields held to the types of the fields
    /// of a record type with the same labels.
    fn check_record_lit(&mut self, expr: &Located<surface::Expr>, expected: &Type<'core>) -> (r:
        Expr<'core>)
        requires
            old(self).wf(),
            expr.data is TupleLit || expr.data is RecordLit,
        ensures
            elab_step(*old(self), *final(self)),
            check_record_outcome(*old(self), *expr, *expected, r, *final(self)),
        decreases *expr, 2nat, 0nat, 0nat,
    {
        let count = Self::field_count(expr);
        let forced = self.force_or_report(expr.range, expected);
        let ghost forced_state = *self;
        proof {
            assert(record_forced(forced_state, forced));
        }
        match forced {
            Value::Prim(Prim::Type) => {
                let is_tuple = match expr.data {
                    surface::Expr::TupleLit(_) => true,
                    _ => false,
                };
                if !is_tuple {
                    if count == 0 {
                        let types: Vec<(Symbol<'core>, Expr<'core>)> = Vec::new();
                        return Expr::RecordType(arena_alloc(self.bump, types));
                    }
                    let r = self.convert_record(expr, expected);
                    proof {
                        lemma_elab_step_transitive(*old(self), forced_state, *self);
                    }
                    return r;
                }
                let depth = self.local_env.len();
                let saved = self.local_env.values;
                let mut types: Vec<(Symbol<'core>, Expr<'core>)> = Vec::new();
                self.check_tuple_types(expr, 0, &mut types);
                let ghost deep = *self;
                let ghost found = types@;
                self.restore_scope(depth, saved);
                proof {
                    lemma_elab_step_reflexive(deep);
                    lemma_deep_step(forced_state, deep, deep, *self);
                    lemma_elab_step_transitive(*old(self), forced_state, *self);
                    assert(tuple_typed(deep, found));
                }
                Expr::RecordType(arena_alloc(self.bump, types))
            },
            Value::RecordType(telescope) => {
                if !self.labels_match(expr, telescope.fields, telescope.start) {
                    let r = self.convert_record(expr, expected);
                    proof {
                        lemma_elab_step_transitive(*old(self), forced_state, *self);
                    }
                    return r;
                }
                let mut terms: Vec<(Symbol<'core>, Expr<'core>)> = Vec::new();
                self.check_fields(
                    expr,
                    0,
                    telescope.fields,
                    telescope.start,
                    telescope.env,
                    &mut terms,
                );
                proof {
                    lemma_elab_step_transitive(*old(self), forced_state, *self);
                    assert(record_held(terms@));
                }
                Expr::RecordLit(arena_alloc(self.bump, terms))
            },
            _ => {
                let r = self.convert_record(expr, expected);
                proof {
                    lemma_elab_step_transitive(*old(self), forced_state, *self);
                }
                r
            },
        }
    }

    /// Whether a field of the label `label` is among `fields`.
    fn find_label(fields: &Vec<(Symbol<'core>, Expr<'core>)>, label: Symbol<'core>) -> (r: bool)
        ensures
            r == has_label(fields@, label@),
    {
        let mut k: usize = 0;
        while k < fields.len()
            invariant
                k <= fields@.len(),
                forall|j: int| 0 <= j < k ==> (#[trigger] fields@[j]).0@ != label@,
            decreases fields@.len() - k,
        {
            if fields[k].0 == label {
                return true;
            }
            k += 1;
        }
        false
    }

    /// The fields from `from` on of a record type, each in the scope of
    /// those before it: their types, each with its label, put after `types`.
    fn synth_type_fields(
        &mut self,
        expr: &Located<surface::Expr>,
        from: usize,
        types: &mut Vec<(Symbol<'core>, Expr<'core>)>,
    )
        requires
            old(self).wf(),
            expr.data is RecordType,
        ensures
            deepened(*old(self), *final(self)),
            type_fields_outcome(
                *old(self),
                *expr,
                from as nat,
                old(types)@,
                final(types)@,
                *final(self),
            ),
        decreases *expr, 1nat, expr.data->RecordType_0@.len() - from, 0nat,
    {
        let fields = match expr.data {
            surface::Expr::RecordType(fields) => fields,
            _ => {
                proof {
                    lemma_elab_step_reflexive(*self);
                }
                return ;
            },
        };
        if from >= fields.len() {
            proof {
                lemma_elab_step_reflexive(*self);
            }
            return ;
        }
        proof {
            assert(decreases_to!(*fields => fields[from as int]));
        }
        let label = self.intern(fields[from].name.data);
        let duplicate = Self::find_label(types, label);
        if duplicate {
            let message = Message::text("Duplicate field `").then_text(
                label.as_str(),
            ).then_text("`");
            proof {
                assert(message@ == duplicate_message(label@));
            }
            self.report_error(fields[from].name.range, message);
        } else {
            proof {
                lemma_elab_step_reflexive(*self);
            }
        }
        let ghost told = *self;
        let ty = self.check_expr(&fields[from].ty, &Self::type_type());
        let ghost checked = *self;
        let ty_value = self.eval_or_report(fields[from].ty.range, &ty);
        let ghost valued = *self;
        self.enter_param(Some(label), ty_value);
        let ghost inner = *self;
        if !duplicate {
            types.push((label, ty));
        }
        let ghost next_types = types@;
        self.synth_type_fields(expr, from + 1, types);
        proof {
            lemma_elab_step_transitive(*old(self), told, checked);
            lemma_elab_step_transitive(*old(self), checked, valued);
            lemma_elab_step_reflexive(*old(self));
            lemma_deepen_entered(*old(self), *old(self), valued, inner);
            lemma_deepen_deepened(*old(self), inner, *self);
            assert(check_outcome(
                told,
                fields@[from as int].ty,
                Value::Prim(Prim::Type),
                ty,
                checked,
            ));
            assert(evaluated(checked, valued, fields@[from as int].ty.range, ty, ty_value));
            assert(param_entered(valued, inner, Some(label), ty_value));
            assert(type_field_steps(told, checked, valued, inner, label, (ty, ty_value)));
            assert(type_fields_outcome(
                inner,
                *expr,
                (from + 1) as nat,
                next_types,
                types@,
                *self,
            ));
        }
    }

    /// A record type: the type of each field in the scope of the fields
    /// before it.
    fn synth_record_type(&mut self, expr: &Located<surface::Expr>) -> (r: Expr<'core>)
        requires
            old(self).wf(),
            expr.data is RecordType,
        ensures
            elab_step(*old(self), *final(self)),
            record_type_outcome(*old(self), *expr, r, *final(self)),
        decreases *expr, 1nat, expr.data->RecordType_0@.len() + 1, 0nat,
    {
        let depth = self.local_env.len();
        let saved = self.local_env.values;
        let mut types: Vec<(Symbol<'core>, Expr<'core>)> = Vec::new();
        self.synth_type_fields(expr, 0, &mut types);
        let ghost deep = *self;
        let ghost found = types@;
        self.restore_scope(depth, saved);
        proof {
            lemma_elab_step_reflexive(deep);
            lemma_deep_step(*old(self), deep, deep, *self);
            assert(record_type_steps(deep, found));
        }
        Expr::RecordType(arena_alloc(self.bump, types))
    }

    /// A projection: the type of the field, where the fields before it are
    /// the projections of the same record.
    #[verifier::loop_isolation(false)]
    fn synth_record_proj(&mut self, expr: &Located<surface::Expr>) -> (r: (Expr<'core>, Type<'core>))
        requires
            old(self).wf(),
            expr.data is RecordProj,
        ensures
            elab_step(*old(self), *final(self)),
            proj_outcome(*old(self), *expr, r, *final(self)),
        decreases *expr, 2nat, 0nat, 0nat,
    {
        let (scrut, name) = match expr.data {
            surface::Expr::RecordProj { scrut, name } => (scrut, name),
            _ => {
                proof {
                    lemma_elab_step_reflexive(*self);
                }
                return (Expr::Error, Value::error());
            },
        };
        let scrut_found = self.synth_expr(scrut);
        let ghost found = *self;
        let scrut_term = scrut_found.0;
        let scrut_ty = self.force_or_report(scrut.range, &scrut_found.1);
        let ghost forced = *self;
        proof {
            assert(synth_outcome(*old(self), *scrut, scrut_found, found));
            assert(proj_steps(found, forced, scrut_found, scrut_ty));
        }
        let telescope = match scrut_ty {
            Value::RecordType(telescope) => telescope,
            Value::Neutral(Head::Error, _) => {
                proof {
                    assert(proj_outcome(
                        *old(self),
                        *expr,
                        (Expr::Error, error_value::<'core>()),
                        *self,
                    ));
                }
                return (Expr::Error, Value::error());
            },
            _ => {
                let shown = self.pretty_value(&scrut_ty);
                let message = Message::text("Expected record, found `").then_text(
                    shown.as_str(),
                ).then_text("`");
                proof {
                    assert(message@ == not_record_message(shown@));
                }
                self.report_error(scrut.range, message);
                proof {
                    assert(is_error(
                        self.diagnostics@.last(),
                        old(self).file_id,
                        scrut.range,
                        not_record_message(shown@),
                    ));
                    assert(proj_outcome(
                        *old(self),
                        *expr,
                        (Expr::Error, error_value::<'core>()),
                        *self,
                    ));
                }
                return (Expr::Error, Value::error());
            },
        };
        let scrut_value = self.eval_or_report(scrut.range, &scrut_term);
        let ghost valued = *self;
        proof {
            assert(evaluated(forced, valued, scrut.range, scrut_term, scrut_value));
            assert(field_steps(valued, scrut_value));
        }
        let label = self.intern(name.data);
        let fields = telescope.fields;
        let mut env = telescope.env;
        let mut i = telescope.start;
        while i < fields.len()
            invariant
                *self == valued,
                telescope.start <= i,
                env == projected_env(
                    telescope.env,
                    fields@,
                    scrut_value,
                    telescope.start as nat,
                    i as nat,
                ),
                forall|k: int| telescope.start <= k < i ==> (#[trigger] fields@[k]).0@ != label@,
            decreases fields@.len() - i,
        {
            let (field_label, field_ty) = fields[i];
            if field_label == label {
                assert(is_field(fields@, name.data@, telescope.start as nat, i as nat));
                assert forall|at: nat| #[trigger]
                    is_field(fields@, name.data@, telescope.start as nat, at) implies at == i by {
                    if at < i {
                        assert(fields@[at as int].0@ != label@);
                    }
                }
                let ty = self.elim_env().eval(env, &field_ty, self.fuel);
                let ty = match ty {
                    Some(ty) => ty,
                    None => {
                        self.report_error(expr.range, Message::text("Evaluation limit reached"));
                        Value::error()
                    },
                };
                let term = Expr::RecordProj(arena_alloc(self.bump, scrut_term), label);
                proof {
                    assert(term@ == Term::RecordProj(Box::new(scrut_term@), name.data@));
                    assert(proj_outcome(*old(self), *expr, (term, ty), *self));
                }
                return (term, ty);
            }
            let value = self.elim_env().project(scrut_value, field_label);
            env.push(self.bump, value);
            i += 1;
        }
        proof {
            assert forall|at: nat| !#[trigger]
                is_field(fields@, name.data@, telescope.start as nat, at) by {
                if is_field(fields@, name.data@, telescope.start as nat, at) {
                    assert(fields@[at as int].0@ != label@);
                }
            }
        }
        let message = Message::text("Field `").then_text(label.as_str()).then_text("` not found");
        proof {
            assert(message@ == no_field_message(name.data@));
        }
        self.report_error(name.range, message);
        proof {
            assert(proj_outcome(
                *old(self),
                *expr,
                (Expr::Error, error_value::<'core>()),
                *self,
            ));
        }
        (Expr::Error, Value::error())
    }

    /// The term as it is shown: with the solutions of the metavariables in
    /// their place.
    pub fn show(&self, term: &Expr<'core>) -> (r: Expr<'core>)
        ensures
            r@ == shown(*self, *term),
    {
        match self.zonk_env().zonk(term, self.fuel) {
            Some(term) => term,
            None => Expr::Error,
        }
    }

    /// Concludes the elaboration of the term `term`, of type `ty`: reads the
    /// type back, reports the metavariables that are left without solution,
    /// and gives the term and the type as they are shown; with `normalize`,
    /// the normal form of the term in place of the term.
    pub fn conclude(
        &mut self,
        range: TextRange,
        term: Expr<'core>,
        ty: &Type<'core>,
        normalize: bool,
    ) -> (r: (Expr<'core>, Expr<'core>))
        requires
            old(self).wf(),
        ensures
            concluded(*old(self), *final(self), range, term, *ty, normalize, r),
    {
        let quoted = self.quote_or_report(range, ty);
        let ghost mid = *self;
        self.report_unsolved_metas();
        let normal = if normalize {
            match self.eval_env().normalize(&term, self.fuel) {
                Some(normal) => normal,
                None => Expr::Error,
            }
        } else {
            term
        };
        let r = (self.show(&normal), self.show(&quoted));
        proof {
            assert(shown_from(normal, quoted));
            assert(self.diagnostics@.take(old(self).diagnostics@.len() as int) =~= old(
                self,
            ).diagnostics@) by {
                assert(self.diagnostics@.take(mid.diagnostics@.len() as int) == mid.diagnostics@);
                assert forall|i: int| 0 <= i < old(self).diagnostics@.len() implies
                    #[trigger] self.diagnostics@[i]
                    == old(self).diagnostics@[i] by {
                    assert(self.diagnostics@.take(mid.diagnostics@.len() as int)[i]
                        == self.diagnostics@[i]);
                }
            }
            if mid.diagnostics@.len() > old(self).diagnostics@.len() {
                assert(self.diagnostics@.take(mid.diagnostics@.len() as int)[old(
                    self,
                ).diagnostics@.len() as int] == mid.diagnostics@.last());
            }
        }
        r
    }

    /// Elaborates a whole program: finds the type of `expr`, and concludes
    /// as [`Self::conclude`] does it: the term and its type, both with the
    /// solutions of the metavariables in their place. The metavariables that
    /// are left without solution are reported. With `normalize`, the term is
    /// its normal form.
    pub fn elab_expr(&mut self, expr: &Located<surface::Expr>, normalize: bool) -> (r: (
        Expr<'core>,
        Expr<'core>,
    ))
        requires
            old(self).wf(),
        ensures
            final(self).wf(),
            extends(old(self).diagnostics@, final(self).diagnostics@),
            exists|mid: Elaborator<'core, 'text>, term: Expr<'core>, ty: Type<'core>|
                {
                    &&& elab_step(*old(self), mid)
                    &&& synth_outcome(*old(self), *expr, (term, ty), mid)
                    &&& #[trigger] concluded(mid, *final(self), expr.range, term, ty, normalize, r)
                },
    {
        let (term, ty) = self.synth_expr(expr);
        let ghost mid = *self;
        let r = self.conclude(expr.range, term, &ty, normalize);
        proof {
            assert(concluded(mid, *self, expr.range, term, ty, normalize, r));
            assert forall|i: int| 0 <= i < old(self).diagnostics@.len() implies
                #[trigger] self.diagnostics@[i]
                == old(self).diagnostics@[i] by {
                assert(self.diagnostics@.take(mid.diagnostics@.len() as int)[i]
                    == self.diagnostics@[i]);
                assert(mid.diagnostics@[i] == old(self).diagnostics@[i]);
            }
        }
        r
    }
}

impl<'core, 'text> Elaborator<'core, 'text> {
    /// The arms from `from` on of a match whose scrutinee is `scrut`, of the
    /// value `value` and the type `ty`: their rows and their bodies, put
    /// after `rows` and `bodies`.
    fn elab_arms(
        &mut self,
        expr: &Located<surface::Expr>,
        from: usize,
        scrut: Expr<'core>,
        value: Value<'core>,
        ty: Type<'core>,
        expected: Type<'core>,
        rows: &mut Vec<PatRow<'core>>,
        bodies: &mut Vec<(Option<Expr<'core>>, Expr<'core>)>,
    )
        requires
            old(self).wf(),
            expr.data is Match,
        ensures
            elab_step(*old(self), *final(self)),
            arms_outcome(
                *old(self),
                *expr,
                from as nat,
                (scrut, ty),
                value,
                expected,
                rows_model(old(rows)@),
                arms_model(old(bodies)@),
                rows_model(final(rows)@),
                arms_model(final(bodies)@),
                *final(self),
            ),
        decreases *expr, 1nat, expr.data->arms@.len() - from, 0nat,
    {
        let arms = match expr.data {
            surface::Expr::Match { arms, .. } => arms,
            _ => {
                proof {
                    lemma_elab_step_reflexive(*self);
                }
                return ;
            },
        };
        if from >= arms.len() {
            proof {
                lemma_elab_step_reflexive(*self);
            }
            return ;
        }
        proof {
            assert(decreases_to!(*arms => arms[from as int]));
        }
        let arm = arms[from];
        let depth = self.local_env.len();
        let saved = self.local_env.values;
        let mut bindings: Vec<Binding<'core>> = Vec::new();
        let pat = self.elab_pat(&arm.pat, scrut, value, ty, depth.len, &mut bindings, true);
        let ghost patterned = *self;
        let ghost entering = bindings@;
        self.enter_bindings(arm.pat.range, &mut bindings);
        let ghost deep = *self;
        let guard = match arm.guard {
            Some(guard) => Some(self.check_expr(&guard, &Value::Prim(Prim::Bool))),
            None => None,
        };
        let ghost guarded = *self;
        let rhs = self.check_expr(&arm.rhs, &expected);
        let ghost deep_after = *self;
        self.restore_scope(depth, saved);
        let ghost back = *self;
        proof {
            if arm.guard is Some {
                lemma_elab_step_transitive(deep, guarded, deep_after);
            }
            lemma_deepen_deepened_step(*old(self), patterned, deep);
            lemma_deep_step(*old(self), deep, deep_after, *self);
        }
        let row_guard = match guard {
            Some(guard) => Some(Expr::lets(self.bump, bindings.as_slice(), guard)),
            None => None,
        };
        let body = Expr::lets(self.bump, bindings.as_slice(), rhs);
        let mut pats: Vec<crate::syntax::Pat<'core>> = Vec::new();
        pats.push(pat);
        let row = PatRow { pats, guard: row_guard, body: from };
        proof {
            assert(row_model(row).pats =~= seq![pat_model(pat)]);
            assert(rows_model(old(rows)@.push(row)) =~= rows_model(old(rows)@).push(
                RowModel {
                    pats: seq![pat_model(pat)],
                    guarded: arm.guard is Some,
                    body: from as nat,
                },
            ));
            assert(arms_model(old(bodies)@.push((row_guard, body))) =~= arms_model(
                old(bodies)@,
            ).push(
                (
                    match guard {
                        Some(guard) => Some(lets_term(bindings_model(bindings@), guard@)),
                        None => None,
                    },
                    lets_term(bindings_model(bindings@), rhs@),
                ),
            ));
        }
        rows.push(row);
        bodies.push((row_guard, body));
        self.elab_arms(expr, from + 1, scrut, value, ty, expected, rows, bodies);
        proof {
            lemma_elab_step_transitive(*old(self), back, *self);
            assert(bindings_entered(patterned, deep, arm.pat.range, entering, bindings@));
            assert(arm_steps(
                patterned,
                deep,
                guarded,
                deep_after,
                back,
                pat,
                (entering, bindings@),
                (guard, rhs),
            ));
        }
    }

    /// Warns of each arm of the match that the tree never takes.
    fn warn_untaken(&mut self, expr: &Located<surface::Expr>, tree: &Decision<'core>)
        requires
            old(self).wf(),
            expr.data is Match,
        ensures
            elab_step(*old(self), *final(self)),
            warned(*old(self), *final(self), *expr, tree@, expr.data->arms@.len()),
    {
        let arms = match expr.data {
            surface::Expr::Match { arms, .. } => arms,
            _ => {
                proof {
                    lemma_elab_step_reflexive(*self);
                }
                return ;
            },
        };
        let ghost start = self.diagnostics@;
        let mut i: usize = 0;
        proof {
            lemma_elab_step_reflexive(*self);
            assert(self.diagnostics@.take(start.len() as int) =~= start);
        }
        while i < arms.len()
            invariant
                i <= arms@.len(),
                expr.data is Match,
                expr.data->arms == arms,
                start == old(self).diagnostics@,
                elab_step(*old(self), *self),
                warned(*old(self), *self, *expr, tree@, i as nat),
            decreases arms@.len() - i,
        {
            let ghost missed = untaken(tree@, i as nat);
            let ghost seen = self.diagnostics@;
            if !takes(tree, i) {
                let label = Label::new(self.file_id, arms[i].pat.range);
                let diagnostic = Diagnostic::warning(Message::text("Unreachable pattern"), label);
                proof {
                    assert(is_warning(
                        diagnostic,
                        self.file_id,
                        arms@[i as int].pat.range,
                        "Unreachable pattern"@,
                    ));
                }
                let ghost cur = *self;
                self.diagnostics.push(diagnostic);
                proof {
                    assert(elab_step(cur, *self));
                    lemma_elab_step_transitive(*old(self), cur, *self);
                    assert(untaken(tree@, (i + 1) as nat) == missed.push(i as nat));
                    assert(self.diagnostics@.take(start.len() as int) =~= seen.take(
                        start.len() as int,
                    ));
                    assert forall|k: int| 0 <= k < missed.len() + 1 implies is_warning(
                        #[trigger] self.diagnostics@[start.len() + k],
                        self.file_id,
                        arms@[missed.push(i as nat)[k] as int].pat.range,
                        "Unreachable pattern"@,
                    ) by {
                        if k < missed.len() {
                            assert(self.diagnostics@[start.len() + k] == seen[start.len() + k]);
                        }
                    }
                }
            } else {
                proof {
                    assert(untaken(tree@, (i + 1) as nat) == missed);
                }
            }
            i += 1;
        }
    }

    /// A match: the arms compiled to a decision tree, whose leaves hold the
    /// bodies of the arms, each in the scope of the variables of its
    /// pattern. A value that no arm takes and an arm that takes no value are
    /// reported.
    fn elab_match(&mut self, expr: &Located<surface::Expr>, expected: Type<'core>) -> (r: Expr<
        'core,
    >)
        requires
            old(self).wf(),
            expr.data is Match,
        ensures
            elab_step(*old(self), *final(self)),
            match_outcome(*old(self), *expr, expected, r, *final(self)),
        decreases *expr, 2nat, 0nat, 0nat,
    {
        let (scrut, arms) = match expr.data {
            surface::Expr::Match { scrut, arms } => (scrut, arms),
            _ => {
                proof {
                    lemma_elab_step_reflexive(*self);
                }
                return Expr::Error;
            },
        };
        let scrut_found = self.synth_expr(scrut);
        let ghost found = *self;
        let scrut_value = self.eval_or_report(scrut.range, &scrut_found.0);
        let ghost valued = *self;
        let mut rows: Vec<PatRow<'core>> = Vec::new();
        let mut bodies: Vec<(Option<Expr<'core>>, Expr<'core>)> = Vec::new();
        proof {
            assert(rows_model(rows@) =~= Seq::empty());
            assert(arms_model(bodies@) =~= Seq::empty());
        }
        self.elab_arms(
            expr,
            0,
            scrut_found.0,
            scrut_value,
            scrut_found.1,
            expected,
            &mut rows,
            &mut bodies,
        );
        let ghost walked = *self;
        let mut paths: Vec<Vec<Symbol<'core>>> = Vec::new();
        paths.push(Vec::new());
        proof {
            assert(path_model(paths@[0]@) =~= Seq::empty());
            assert(paths_model(paths@) =~= seq![Seq::<Seq<char>>::empty()]);
            lemma_elab_step_transitive(*old(self), found, valued);
            lemma_elab_step_transitive(*old(self), valued, walked);
            assert(synth_outcome(*old(self), *scrut, scrut_found, found));
            assert(evaluated(found, valued, scrut.range, scrut_found.0, scrut_value));
            assert(match_steps(
                found,
                valued,
                walked,
                scrut_found,
                scrut_value,
                rows_model(rows@),
                arms_model(bodies@),
            ));
        }
        let tree = match compile(&rows, &paths, self.fuel) {
            Some(tree) => tree,
            None => {
                self.report_error(expr.range, Message::text("Evaluation limit reached"));
                proof {
                    lemma_elab_step_transitive(*old(self), walked, *self);
                }
                return Expr::Error;
            },
        };
        if fails(&tree) {
            self.report_error(expr.range, Message::text("Non-exhaustive match"));
        } else {
            proof {
                lemma_elab_step_reflexive(*self);
            }
        }
        let ghost told = *self;
        self.warn_untaken(expr, &tree);
        let term = lower(self.bump, &tree, scrut_found.0, &bodies);
        proof {
            lemma_elab_step_transitive(*old(self), walked, told);
            lemma_elab_step_transitive(*old(self), told, *self);
            assert(match_told(told));
        }
        term
    }
}

} // verus!
