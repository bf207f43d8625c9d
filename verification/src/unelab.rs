//! Printing a core term back as surface syntax.
//!
//! The printer undoes what elaboration did to the shape of a term: nested
//! binders print as one `fun` or `forall` with several parameters, a
//! function type whose parameter is not used prints as an arrow, a chain of
//! `let` prints as a block, and a record whose labels are `_0`, `_1`, ...
//! prints as a tuple. Variables print by the names in scope; sub-terms are
//! put in parentheses where their precedence asks for it.

use crate::env::{RelativeVar, UniqueEnv};
use crate::plicity::Plicity;
use crate::printer::{
    l_ann, l_arrow, l_block, l_fun_app, l_fun_arg, l_fun_lit, l_fun_param, l_fun_type,
    l_let_expr, l_let_stmt, l_list, l_match, l_match_case, l_paren, l_record,
    l_record_lit_field, l_record_proj, l_record_type_field, l_text, l_tuple, layouts, Doc,
    Layout, Printer,
};
use crate::symbol::{name_text, tuple_label, Symbol};
use crate::syntax::{Const, Expr, FunArg, FunParam, Term};
use crate::text::{decimal, decimal_string};
use vstd::prelude::*;
use vstd::string::StringExecFns;

verus! {

/// The names of the variables in scope, the first bound first; `None` for a
/// variable without a name.
pub type NameEnv<'core> = UniqueEnv<Option<Symbol<'core>>>;

/// What the printer is asked to do.
#[derive(Debug, Copy, Clone, PartialEq, Eq, Structural)]
pub struct Config {
    /// Print local variables by their names rather than by their indices.
    pub print_names: bool,
    /// Print `forall (x : A) -> B` as `A -> B` where `x` does not occur in
    /// `B`.
    pub fun_arrows: bool,
}

impl Default for Config {
    fn default() -> (config: Self)
        ensures
            config == (Config { print_names: true, fun_arrows: true }),
    {
        Config { print_names: true, fun_arrows: true }
    }
}

/// How tightly a term binds: a term is put in parentheses where it stands
/// in a place that asks for a lower precedence than its own.
#[derive(Debug, Copy, Clone, PartialEq, Eq, PartialOrd, Ord, Structural)]
pub enum Prec {
    Atom,
    Proj,
    App,
    Fun,
    Let,
}

impl Prec {
    /// The place of the precedence in the order, from 0 for `Atom`.
    pub open spec fn spec_rank(self) -> nat {
        match self {
            Prec::Atom => 0,
            Prec::Proj => 1,
            Prec::App => 2,
            Prec::Fun => 3,
            Prec::Let => 4,
        }
    }

    /// The place of the precedence in the order, from 0 for `Atom`.
    pub fn rank(self) -> (r: u8)
        ensures
            r == self.spec_rank(),
    {
        match self {
            Prec::Atom => 0,
            Prec::Proj => 1,
            Prec::App => 2,
            Prec::Fun => 3,
            Prec::Let => 4,
        }
    }

    /// The highest precedence: a place that asks for it takes any term
    /// without parentheses.
    pub fn max() -> (p: Self)
        ensures
            p == Prec::Let,
    {
        Prec::Let
    }

    /// The precedence of a term, by its outermost form.
    pub open spec fn of_term(t: Term) -> Prec {
        match t {
            Term::Error
            | Term::Prim(_)
            | Term::Lit(_)
            | Term::LocalVar(_)
            | Term::MetaVar(_)
            | Term::RecordType(_)
            | Term::RecordLit(_)
            | Term::MatchBool { .. }
            | Term::MatchInt { .. } => Prec::Atom,
            Term::Let { .. } => Prec::Let,
            Term::FunType { .. } | Term::FunLit { .. } => Prec::Fun,
            Term::FunApp { .. } => if t.is_list() {
                Prec::Atom
            } else {
                Prec::App
            },
            Term::RecordProj(..) => Prec::Proj,
        }
    }

    /// The precedence of a term, by its outermost form.
    pub fn of_expr(expr: &Expr) -> (p: Self)
        ensures
            p == Prec::of_term(expr@),
    {
        match expr {
            Expr::Error
            | Expr::Prim(_)
            | Expr::Lit(_)
            | Expr::LocalVar(_)
            | Expr::MetaVar(_)
            | Expr::RecordType(_)
            | Expr::RecordLit(_)
            | Expr::MatchBool { .. }
            | Expr::MatchInt { .. } => Prec::Atom,
            Expr::Let { .. } => Prec::Let,
            Expr::FunType { .. } | Expr::FunLit { .. } => Prec::Fun,
            Expr::FunApp { .. } => if expr.is_list() {
                Prec::Atom
            } else {
                Prec::App
            },
            Expr::RecordProj(..) => Prec::Proj,
        }
    }
}

/// The texts of the names in scope.
pub open spec fn names_model(names: Seq<Option<Symbol>>) -> Seq<Option<Seq<char>>> {
    Seq::new(names.len(), |i: int| name_text(names[i]))
}

/// `names` with `count` variables without a name bound after them.
pub open spec fn with_unnamed(names: Seq<Option<Seq<char>>>, count: nat) -> Seq<Option<Seq<char>>> {
    names + Seq::new(count, |i: int| None)
}

/// `names` with the first `count` fields bound after them, each under its
/// label.
pub open spec fn with_fields(
    names: Seq<Option<Seq<char>>>,
    fields: Seq<(Seq<char>, Term)>,
    count: nat,
) -> Seq<Option<Seq<char>>> {
    names + Seq::new(count, |i: int| Some(fields[i].0))
}

/// Whether the labels are those of a tuple: `_0`, `_1`, ... in order.
pub open spec fn is_tuple(fields: Seq<(Seq<char>, Term)>) -> bool {
    forall|i: int| 0 <= i < fields.len() ==> (#[trigger] fields[i]).0 == tuple_label(i as nat)
}

/// Whether a function type with this body prints as an arrow.
pub open spec fn is_arrow(config: Config, body: Term) -> bool {
    config.fun_arrows && !body.references(0)
}

/// A name, `_` where there is none.
pub open spec fn name_layout(name: Option<Seq<char>>) -> Layout {
    match name {
        Some(text) => l_text(text),
        None => l_text("_"@),
    }
}

/// A literal.
pub open spec fn lit_layout(lit: Const) -> Layout {
    match lit {
        Const::Bool(true) => l_text("true"@),
        Const::Bool(false) => l_text("false"@),
        Const::Int(value) => l_text(decimal(value as nat)),
    }
}

/// A local variable: its name where names are asked for and it has one,
/// else `_#` and its index.
pub open spec fn var_layout(config: Config, names: Seq<Option<Seq<char>>>, var: nat) -> Layout {
    if config.print_names && var < names.len() && names[names.len() - 1 - var] is Some {
        l_text(names[names.len() - 1 - var]->0)
    } else {
        l_text("_#"@ + decimal(var))
    }
}

/// A metavariable: `?` and its number.
pub open spec fn meta_layout(var: nat) -> Layout {
    l_text("?"@ + decimal(var))
}

/// The term without parentheses around it.
pub open spec fn bare_layout(config: Config, names: Seq<Option<Seq<char>>>, t: Term) -> Layout
    decreases t, 1nat,
{
    match t {
        Term::Error => l_text("#error"@),
        Term::Lit(lit) => lit_layout(lit),
        Term::Prim(prim) => l_text(prim.name_text()),
        Term::LocalVar(var) => var_layout(config, names, var),
        Term::MetaVar(var) => meta_layout(var),
        Term::Let { name, ty, init, body } => l_block(
            seq![
                l_let_stmt(
                    name_layout(name),
                    expr_layout(config, names, *ty, Prec::Let),
                    expr_layout(config, names, *init, Prec::Let),
                ),
            ] + let_stmts(
                config,
                names.push(name),
                *body,
            ),
            let_result(config, names.push(name), *body),
        ),
        Term::FunType { plicity, name, ty, body } => if is_arrow(config, *body) {
            l_arrow(
                plicity,
                expr_layout(config, names, *ty, Prec::App),
                expr_layout(config, names.push(None), *body, Prec::Fun),
            )
        } else {
            l_fun_type(
                seq![
                    l_fun_param(
                        plicity,
                        name_layout(name),
                        expr_layout(config, names, *ty, Prec::Let),
                    ),
                ] + type_params(
                    config,
                    names.push(name),
                    *body,
                ),
                type_result(config, names.push(name), *body),
            )
        },
        Term::FunLit { plicity, name, ty, body } => l_fun_lit(
            seq![
                    l_fun_param(
                        plicity,
                        name_layout(name),
                        expr_layout(config, names, *ty, Prec::Let),
                    ),
                ] + lit_params(
                config,
                names.push(name),
                *body,
            ),
            lit_result(config, names.push(name), *body),
        ),
        Term::FunApp { fun, plicity, arg } => if t.is_list() {
            l_list(
                match plicity {
                    Plicity::Explicit => list_items(config, names, *fun).push(
                        expr_layout(config, names, *arg, Prec::Let),
                    ),
                    Plicity::Implicit => Seq::empty(),
                },
            )
        } else {
            l_fun_app(
                app_head(config, names, *fun),
                app_args(config, names, *fun).push(
                    l_fun_arg(plicity, expr_layout(config, names, *arg, Prec::Atom)),
                ),
            )
        },
        Term::RecordType(fields) => if is_tuple(fields) {
            l_tuple(field_items(config, names, t))
        } else {
            l_record(field_items(config, names, t))
        },
        Term::RecordLit(fields) => if is_tuple(fields) {
            l_tuple(field_items(config, names, t))
        } else {
            l_record(field_items(config, names, t))
        },
        Term::RecordProj(scrut, label) => l_record_proj(
            expr_layout(config, names, *scrut, Prec::Proj),
            l_text(label),
        ),
        Term::MatchBool { cond, then_branch, else_branch } => l_match(
            expr_layout(config, names, *cond, Prec::Proj),
            seq![
                l_match_case(l_text("true"@), expr_layout(config, names, *then_branch, Prec::Let)),
                l_match_case(l_text("false"@), expr_layout(config, names, *else_branch, Prec::Let)),
            ],
        ),
        Term::MatchInt { scrut, cases, default } => l_match(
            expr_layout(config, names, *scrut, Prec::Proj),
            field_items(config, names, t).push(
                l_match_case(l_text("_"@), expr_layout(config, names, *default, Prec::Let)),
            ),
        ),
    }
}

/// The term as it prints in a place that asks for precedence `prec`: in
/// parentheses where its own precedence is higher.
pub open spec fn expr_layout(
    config: Config,
    names: Seq<Option<Seq<char>>>,
    t: Term,
    prec: Prec,
) -> Layout
    decreases t, 2nat,
{
    let doc = bare_layout(config, names, t);
    if prec.spec_rank() < Prec::of_term(t).spec_rank() {
        l_paren(doc)
    } else {
        doc
    }
}

/// The statements of the `let`s at the head of a term.
pub open spec fn let_stmts(config: Config, names: Seq<Option<Seq<char>>>, t: Term) -> Seq<Layout>
    decreases t, 3nat,
{
    match t {
        Term::Let { name, ty, init, body } => seq![
            l_let_stmt(
                name_layout(name),
                expr_layout(config, names, *ty, Prec::Let),
                expr_layout(config, names, *init, Prec::Let),
            ),
        ] + let_stmts(config, names.push(name), *body),
        _ => Seq::empty(),
    }
}

/// What follows the `let`s at the head of a term.
pub open spec fn let_result(config: Config, names: Seq<Option<Seq<char>>>, t: Term) -> Layout
    decreases t, 3nat,
{
    match t {
        Term::Let { name, body, .. } => let_result(config, names.push(name), *body),
        _ => expr_layout(config, names, t, Prec::Let),
    }
}

/// The parameters of the function types at the head of a term, up to the
/// first that prints as an arrow.
pub open spec fn type_params(config: Config, names: Seq<Option<Seq<char>>>, t: Term) -> Seq<Layout>
    decreases t, 3nat,
{
    match t {
        Term::FunType { plicity, name, ty, body } => if is_arrow(config, *body) {
            Seq::empty()
        } else {
            seq![
                l_fun_param(
                    plicity,
                    name_layout(name),
                    expr_layout(config, names, *ty, Prec::Let),
                ),
            ] + type_params(config, names.push(name), *body)
        },
        _ => Seq::empty(),
    }
}

/// What follows the parameters of [`type_params`]: the arrow, or the first
/// term that is no function type.
pub open spec fn type_result(config: Config, names: Seq<Option<Seq<char>>>, t: Term) -> Layout
    decreases t, 3nat,
{
    match t {
        Term::FunType { plicity, name, ty, body } => if is_arrow(config, *body) {
            l_arrow(
                plicity,
                expr_layout(config, names, *ty, Prec::App),
                expr_layout(config, names.push(None), *body, Prec::Fun),
            )
        } else {
            type_result(config, names.push(name), *body)
        },
        _ => expr_layout(config, names, t, Prec::Let),
    }
}

/// The parameters of the function literals at the head of a term.
pub open spec fn lit_params(config: Config, names: Seq<Option<Seq<char>>>, t: Term) -> Seq<Layout>
    decreases t, 3nat,
{
    match t {
        Term::FunLit { plicity, name, ty, body } => seq![
            l_fun_param(plicity, name_layout(name), expr_layout(config, names, *ty, Prec::Let)),
        ] + lit_params(config, names.push(name), *body),
        _ => Seq::empty(),
    }
}

/// What follows the function literals at the head of a term.
pub open spec fn lit_result(config: Config, names: Seq<Option<Seq<char>>>, t: Term) -> Layout
    decreases t, 3nat,
{
    match t {
        Term::FunLit { name, body, .. } => lit_result(config, names.push(name), *body),
        _ => expr_layout(config, names, t, Prec::Let),
    }
}

/// The function of a chain of applications.
pub open spec fn app_head(config: Config, names: Seq<Option<Seq<char>>>, t: Term) -> Layout
    decreases t, 3nat,
{
    match t {
        Term::FunApp { fun, .. } => app_head(config, names, *fun),
        _ => expr_layout(config, names, t, Prec::App),
    }
}

/// The arguments of a chain of applications, the first applied first.
pub open spec fn app_args(config: Config, names: Seq<Option<Seq<char>>>, t: Term) -> Seq<Layout>
    decreases t, 3nat,
{
    match t {
        Term::FunApp { fun, plicity, arg } => app_args(config, names, *fun).push(
            l_fun_arg(plicity, expr_layout(config, names, *arg, Prec::Atom)),
        ),
        _ => Seq::empty(),
    }
}

/// The items of a list literal, the first first, each as it prints.
pub open spec fn list_items(config: Config, names: Seq<Option<Seq<char>>>, t: Term) -> Seq<Layout>
    decreases t, 3nat,
{
    match t {
        Term::FunApp { fun, plicity: Plicity::Explicit, arg } => list_items(
            config,
            names,
            *fun,
        ).push(expr_layout(config, names, *arg, Prec::Let)),
        _ => Seq::empty(),
    }
}

/// `expr : ty`, with the `let`s at the head of `expr` taken out in front.
/// The type is printed in the scope of those `let`s.
pub open spec fn ann_layout(config: Config, names: Seq<Option<Seq<char>>>, t: Term, ty: Term) -> Layout
    decreases t,
{
    match t {
        Term::Let { name, ty: binding_ty, init, body } => l_let_expr(
            l_let_stmt(
                name_layout(name),
                expr_layout(config, names, *binding_ty, Prec::Let),
                expr_layout(config, names, *init, Prec::Let),
            ),
            ann_layout(config, names.push(name), *body, ty),
        ),
        _ => l_ann(
            expr_layout(config, names, t, Prec::Proj),
            expr_layout(config, names, ty, Prec::Let),
        ),
    }
}

/// The parts of a term that holds a sequence of terms, each as it prints:
/// the components of a tuple, the fields of a record with their labels, the
/// cases of a match on an integer with their keys. In a record type, each
/// field is printed in the scope of the fields before it.
pub open spec fn field_items(config: Config, names: Seq<Option<Seq<char>>>, t: Term) -> Seq<Layout>
    decreases t, 0nat,
{
    match t {
        Term::RecordType(fields) => Seq::new(
            fields.len(),
            |i: int|
                if 0 <= i < fields.len() {
                    if is_tuple(fields) {
                        expr_layout(config, with_unnamed(names, i as nat), fields[i].1, Prec::Let)
                    } else {
                        l_record_type_field(
                            l_text(fields[i].0),
                            expr_layout(
                                config,
                                with_fields(names, fields, i as nat),
                                fields[i].1,
                                Prec::Let,
                            ),
                        )
                    }
                } else {
                    Layout::Nil
                },
        ),
        Term::RecordLit(fields) => Seq::new(
            fields.len(),
            |i: int|
                if 0 <= i < fields.len() {
                    if is_tuple(fields) {
                        expr_layout(config, names, fields[i].1, Prec::Let)
                    } else {
                        l_record_lit_field(
                            l_text(fields[i].0),
                            expr_layout(config, names, fields[i].1, Prec::Let),
                        )
                    }
                } else {
                    Layout::Nil
                },
        ),
        Term::MatchInt { cases, .. } => Seq::new(
            cases.len(),
            |i: int|
                if 0 <= i < cases.len() {
                    l_match_case(
                        lit_layout(Const::Int(cases[i].0)),
                        expr_layout(config, names, cases[i].1, Prec::Let),
                    )
                } else {
                    Layout::Nil
                },
        ),
        _ => Seq::empty(),
    }
}

/// Binding one more name after the names in scope binds its text after
/// their texts.
pub proof fn lemma_names_push(names: Seq<Option<Symbol>>, name: Option<Symbol>)
    ensures
        names_model(names.push(name)) == names_model(names).push(name_text(name)),
{
    assert(names_model(names.push(name)) =~= names_model(names).push(name_text(name)));
}

/// Whether the labels of the fields are those of a tuple.
pub fn fields_are_tuple<T>(fields: &Vec<(Symbol, T)>) -> (r: bool)
    ensures
        r == forall|i: int|
            0 <= i < fields@.len() ==> (#[trigger] fields@[i]).0@ == tuple_label(i as nat),
{
    let mut i: usize = 0;
    while i < fields.len()
        invariant
            i <= fields@.len(),
            forall|j: int| 0 <= j < i ==> (#[trigger] fields@[j]).0@ == tuple_label(j as nat),
        decreases fields@.len() - i,
    {
        if !fields[i].0.is_tuple_label(i) {
            return false;
        }
        i += 1;
    }
    true
}

/// Prints core terms as surface syntax.
#[derive(Debug, Copy, Clone)]
pub struct Unelaborator<'core> {
    pub printer: Printer<'core>,
    pub config: Config,
}

impl<'core> Unelaborator<'core> {
    pub fn new(printer: Printer<'core>, config: Config) -> (u: Self)
        ensures
            u.printer == printer,
            u.config == config,
    {
        Unelaborator { printer, config }
    }

    /// The term, as it prints where no parentheses are needed.
    pub fn expr(&self, names: &mut NameEnv<'core>, expr: &Expr<'core>) -> (doc: Doc<'core>)
        requires
            self.config.print_names ==> expr@.scoped(old(names)@.len()),
        ensures
            final(names)@ == old(names)@,
            doc@ == expr_layout(self.config, names_model(old(names)@), expr@, Prec::Let),
    {
        self.expr_prec(names, expr, Prec::Let)
    }

    /// `expr : ty`, with the `let`s at the head of `expr` taken out in
    /// front of the whole.
    pub fn ann_expr(&self, names: &mut NameEnv<'core>, expr: &Expr<'core>, ty: &Expr<'core>) -> (doc:
        Doc<'core>)
        requires
            self.config.print_names ==> expr@.scoped(old(names)@.len()) && ty@.scoped(
                old(names)@.len() + expr@.let_depth(),
            ),
        ensures
            final(names)@ == old(names)@,
            doc@ == ann_layout(self.config, names_model(old(names)@), expr@, ty@),
        decreases *expr,
    {
        let ghost names0 = names@;
        match *expr {
            Expr::Let { name, ty: binding_ty, init, body } => {
                let pat = self.name(name);
                names.push(name);
                proof {
                    lemma_names_push(names0, name);
                }
                let body = self.ann_expr(names, body, ty);
                names.pop();
                assert(names@ =~= names0);
                let binding_ty = self.expr_prec(names, binding_ty, Prec::Let);
                let init = self.expr_prec(names, init, Prec::Let);
                self.printer.let_expr(self.printer.let_stmt(pat, binding_ty, init), body)
            },
            _ => {
                let expr = self.expr_prec(names, expr, Prec::Proj);
                let ty = self.expr_prec(names, ty, Prec::Let);
                self.printer.ann_expr(expr, ty)
            },
        }
    }

    /// The term, as it prints in a place that asks for precedence `prec`.
    pub fn expr_prec(&self, names: &mut NameEnv<'core>, expr: &Expr<'core>, prec: Prec) -> (doc:
        Doc<'core>)
        requires
            self.config.print_names ==> expr@.scoped(old(names)@.len()),
        ensures
            final(names)@ == old(names)@,
            doc@ == expr_layout(self.config, names_model(old(names)@), expr@, prec),
        decreases *expr, 2nat,
    {
        let doc = self.bare(names, expr);
        if prec.rank() < Prec::of_expr(expr).rank() {
            self.printer.paren_expr(doc)
        } else {
            doc
        }
    }

    /// The term without parentheses around it.
    fn bare(&self, names: &mut NameEnv<'core>, expr: &Expr<'core>) -> (doc: Doc<'core>)
        requires
            self.config.print_names ==> expr@.scoped(old(names)@.len()),
        ensures
            final(names)@ == old(names)@,
            doc@ == bare_layout(self.config, names_model(old(names)@), expr@),
        decreases *expr, 1nat,
    {
        match *expr {
            Expr::Error => self.printer.text("#error"),
            Expr::Lit(lit) => self.lit(lit),
            Expr::Prim(prim) => self.printer.text(prim.name()),
            Expr::LocalVar(var) => self.local_var(names, var),
            Expr::MetaVar(var) => {
                let s = String::from_str("?");
                let s = s.concat(decimal_string(var.level).as_str());
                self.printer.text(s.as_str())
            },
            Expr::Let { .. } => self.let_block(names, expr),
            Expr::FunType { .. } => self.fun_type(names, expr),
            Expr::FunLit { .. } => self.fun_lit(names, expr),
            Expr::FunApp { .. } => self.fun_app(names, expr),
            Expr::RecordType(fields) => self.record_type(names, expr, fields),
            Expr::RecordLit(fields) => self.record_lit(names, expr, fields),
            Expr::RecordProj(scrut, label) => {
                let scrut = self.expr_prec(names, scrut, Prec::Proj);
                self.printer.record_proj_expr(scrut, self.symbol(label))
            },
            Expr::MatchBool { .. } => self.match_bool(names, expr),
            Expr::MatchInt { .. } => self.match_int(names, expr),
        }
    }

    /// A chain of `let`s, as a block.
    fn let_block(&self, names: &mut NameEnv<'core>, expr: &Expr<'core>) -> (doc: Doc<'core>)
        requires
            *expr is Let,
            self.config.print_names ==> expr@.scoped(old(names)@.len()),
        ensures
            final(names)@ == old(names)@,
            doc@ == bare_layout(self.config, names_model(old(names)@), expr@),
        decreases *expr, 0nat,
    {
        let ghost names0 = names@;
        let ghost model0 = names_model(names0);
        match *expr {
            Expr::Let { name, ty, init, body } => {
                let mut stmts: Vec<Doc<'core>> = Vec::new();
                let ty_doc = self.expr_prec(names, ty, Prec::Let);
                let init_doc = self.expr_prec(names, init, Prec::Let);
                stmts.push(self.printer.let_stmt(self.name(name), ty_doc, init_doc));
                names.push(name);
                proof {
                    lemma_names_push(names0, name);
                }
                let result = self.let_rest(names, body, &mut stmts);
                names.pop();
                assert(names@ =~= names0);
                assert(layouts(stmts@) =~= seq![
                    l_let_stmt(
                        name_layout(name_text(name)),
                        expr_layout(self.config, model0, ty@, Prec::Let),
                        expr_layout(self.config, model0, init@, Prec::Let),
                    ),
                ] + let_stmts(self.config, model0.push(name_text(name)), body@));
                self.printer.block(&stmts, result)
            },
            _ => Doc::Nil,
        }
    }

    /// A function type: an arrow, or `forall` with all the parameters that follow one another.
    fn fun_type(&self, names: &mut NameEnv<'core>, expr: &Expr<'core>) -> (doc: Doc<'core>)
        requires
            *expr is FunType,
            self.config.print_names ==> expr@.scoped(old(names)@.len()),
        ensures
            final(names)@ == old(names)@,
            doc@ == bare_layout(self.config, names_model(old(names)@), expr@),
        decreases *expr, 0nat,
    {
        let ghost names0 = names@;
        let ghost model0 = names_model(names0);
        match *expr {
            Expr::FunType { param, body } => {
                if self.config.fun_arrows && !body.references_local(RelativeVar::new()) {
                    let ty = self.expr_prec(names, param.ty, Prec::App);
                    names.push(None);
                    proof {
                        lemma_names_push(names0, None);
                    }
                    let body = self.expr_prec(names, body, Prec::Fun);
                    names.pop();
                    assert(names@ =~= names0);
                    self.printer.arrow_expr(param.plicity, ty, body)
                } else {
                    let mut params: Vec<Doc<'core>> = Vec::new();
                    params.push(self.fun_param(names, &param));
                    names.push(param.name);
                    proof {
                        lemma_names_push(names0, param.name);
                    }
                    let result = self.type_rest(names, body, &mut params);
                    names.pop();
                    assert(names@ =~= names0);
                    assert(layouts(params@) =~= seq![
                        l_fun_param(
                            param.plicity,
                            name_layout(name_text(param.name)),
                            expr_layout(self.config, model0, param.ty@, Prec::Let),
                        ),
                    ] + type_params(self.config, model0.push(name_text(param.name)), body@));
                    self.printer.fun_type_expr(&params, result)
                }
            },
            _ => Doc::Nil,
        }
    }

    /// A function literal, with all the parameters that follow one another.
    fn fun_lit(&self, names: &mut NameEnv<'core>, expr: &Expr<'core>) -> (doc: Doc<'core>)
        requires
            *expr is FunLit,
            self.config.print_names ==> expr@.scoped(old(names)@.len()),
        ensures
            final(names)@ == old(names)@,
            doc@ == bare_layout(self.config, names_model(old(names)@), expr@),
        decreases *expr, 0nat,
    {
        let ghost names0 = names@;
        let ghost model0 = names_model(names0);
        match *expr {
            Expr::FunLit { param, body } => {
                let mut params: Vec<Doc<'core>> = Vec::new();
                params.push(self.fun_param(names, &param));
                names.push(param.name);
                proof {
                    lemma_names_push(names0, param.name);
                }
                let result = self.lit_rest(names, body, &mut params);
                names.pop();
                assert(names@ =~= names0);
                assert(layouts(params@) =~= seq![
                    l_fun_param(
                        param.plicity,
                        name_layout(name_text(param.name)),
                        expr_layout(self.config, model0, param.ty@, Prec::Let),
                    ),
                ] + lit_params(self.config, model0.push(name_text(param.name)), body@));
                self.printer.fun_lit_expr(&params, result)
            },
            _ => Doc::Nil,
        }
    }

    /// An application, with all its arguments.
    fn fun_app(&self, names: &mut NameEnv<'core>, expr: &Expr<'core>) -> (doc: Doc<'core>)
        requires
            *expr is FunApp,
            self.config.print_names ==> expr@.scoped(old(names)@.len()),
        ensures
            final(names)@ == old(names)@,
            doc@ == bare_layout(self.config, names_model(old(names)@), expr@),
        decreases *expr, 0nat,
    {
        let ghost names0 = names@;
        let ghost model0 = names_model(names0);
        match *expr {
            Expr::FunApp { fun, arg } => {
                if expr.is_list() {
                    let mut items: Vec<Doc<'core>> = Vec::new();
                    match arg.plicity {
                        Plicity::Explicit => {
                            self.list_rest(names, fun, &mut items);
                            items.push(self.expr_prec(names, arg.expr, Prec::Let));
                            assert(layouts(items@) =~= list_items(self.config, model0, fun@).push(
                                expr_layout(self.config, model0, arg.expr@, Prec::Let),
                            ));
                        },
                        Plicity::Implicit => {
                            assert(layouts(items@) =~= Seq::empty());
                        },
                    }
                    return self.printer.list_expr(&items);
                }
                let mut args: Vec<Doc<'core>> = Vec::new();
                let head = self.app_rest(names, fun, &mut args);
                args.push(self.fun_arg(names, &arg));
                assert(layouts(args@) =~= app_args(self.config, model0, fun@).push(
                    l_fun_arg(
                        arg.plicity,
                        expr_layout(self.config, model0, arg.expr@, Prec::Atom),
                    ),
                ));
                self.printer.fun_app_expr(head, &args)
            },
            _ => Doc::Nil,
        }
    }

    /// A match on a boolean.
    fn match_bool(&self, names: &mut NameEnv<'core>, expr: &Expr<'core>) -> (doc: Doc<'core>)
        requires
            *expr is MatchBool,
            self.config.print_names ==> expr@.scoped(old(names)@.len()),
        ensures
            final(names)@ == old(names)@,
            doc@ == bare_layout(self.config, names_model(old(names)@), expr@),
        decreases *expr, 0nat,
    {
        let ghost names0 = names@;
        match *expr {
            Expr::MatchBool { cond, then_branch, else_branch } => {
                let cond = self.expr_prec(names, cond, Prec::Proj);
                let then_branch = self.expr_prec(names, then_branch, Prec::Let);
                let else_branch = self.expr_prec(names, else_branch, Prec::Let);
                let cases = vec![
                    self.printer.match_case(self.printer.text("true"), then_branch),
                    self.printer.match_case(self.printer.text("false"), else_branch),
                ];
                assert(layouts(cases@) =~= seq![
                    l_match_case(l_text("true"@), then_branch@),
                    l_match_case(l_text("false"@), else_branch@),
                ]);
                self.printer.match_expr(cond, &cases)
            },
            _ => Doc::Nil,
        }
    }

    /// A match on an integer, the default last.
    fn match_int(&self, names: &mut NameEnv<'core>, expr: &Expr<'core>) -> (doc: Doc<'core>)
        requires
            *expr is MatchInt,
            self.config.print_names ==> expr@.scoped(old(names)@.len()),
        ensures
            final(names)@ == old(names)@,
            doc@ == bare_layout(self.config, names_model(old(names)@), expr@),
        decreases *expr, 0nat,
    {
        let ghost names0 = names@;
        let ghost model0 = names_model(names0);
        match *expr {
            Expr::MatchInt { scrut, cases, default } => {
                let scrut = self.expr_prec(names, scrut, Prec::Proj);
                let mut docs: Vec<Doc<'core>> = Vec::new();
                let mut i: usize = 0;
                while i < cases.len()
                    invariant
                        i <= cases@.len(),
                        docs@.len() == i,
                        names@ == names0,
                        model0 == names_model(names0),
                        *expr is MatchInt,
                        expr->cases == cases,
                        self.config.print_names ==> expr@.scoped(names0.len()),
                        forall|j: int|
                            0 <= j < i ==> (#[trigger] docs@[j])@ == l_match_case(
                                lit_layout(Const::Int(cases@[j].0)),
                                expr_layout(self.config, model0, cases@[j].1@, Prec::Let),
                            ),
                    decreases cases@.len() - i,
                {
                    proof {
                        assert(decreases_to!(*cases => cases[i as int]));
                        assert(expr@->cases[i as int].1 == cases@[i as int].1@);
                    }
                    let (key, rhs) = cases[i];
                    let pat = self.lit(Const::Int(key));
                    let rhs = self.expr_prec(names, &cases[i].1, Prec::Let);
                    docs.push(self.printer.match_case(pat, rhs));
                    i += 1;
                }
                let default = self.expr_prec(names, default, Prec::Let);
                docs.push(self.printer.match_case(self.printer.text("_"), default));
                assert(layouts(docs@) =~= field_items(self.config, model0, expr@).push(
                    l_match_case(l_text("_"@), default@),
                ));
                self.printer.match_expr(scrut, &docs)
            },
            _ => Doc::Nil,
        }
    }

    /// Prints the `let`s at the head of `expr` onto `stmts` and returns what
    /// follows them.
    fn let_rest(
        &self,
        names: &mut NameEnv<'core>,
        expr: &Expr<'core>,
        stmts: &mut Vec<Doc<'core>>,
    ) -> (result: Doc<'core>)
        requires
            self.config.print_names ==> expr@.scoped(old(names)@.len()),
        ensures
            final(names)@ == old(names)@,
            layouts(final(stmts)@) == layouts(old(stmts)@) + let_stmts(
                self.config,
                names_model(old(names)@),
                expr@,
            ),
            result@ == let_result(self.config, names_model(old(names)@), expr@),
        decreases *expr, 3nat,
    {
        let ghost names0 = names@;
        let ghost stmts0 = stmts@;
        match *expr {
            Expr::Let { name, ty, init, body } => {
                let ty = self.expr_prec(names, ty, Prec::Let);
                let init = self.expr_prec(names, init, Prec::Let);
                stmts.push(self.printer.let_stmt(self.name(name), ty, init));
                names.push(name);
                proof {
                    lemma_names_push(names0, name);
                }
                let ghost stmts1 = stmts@;
                let result = self.let_rest(names, body, stmts);
                names.pop();
                assert(names@ =~= names0);
                assert(layouts(stmts1) =~= layouts(stmts0).push(stmts1.last()@));
                assert(layouts(stmts@) =~= layouts(stmts0) + let_stmts(
                    self.config,
                    names_model(names0),
                    expr@,
                ));
                result
            },
            _ => {
                assert(layouts(stmts@) =~= layouts(stmts0) + let_stmts(
                    self.config,
                    names_model(names0),
                    expr@,
                ));
                self.expr_prec(names, expr, Prec::Let)
            },
        }
    }

    /// Prints the parameters of the function types at the head of `expr`
    /// onto `params`, up to the first that prints as an arrow, and returns
    /// what follows them.
    fn type_rest(
        &self,
        names: &mut NameEnv<'core>,
        expr: &Expr<'core>,
        params: &mut Vec<Doc<'core>>,
    ) -> (result: Doc<'core>)
        requires
            self.config.print_names ==> expr@.scoped(old(names)@.len()),
        ensures
            final(names)@ == old(names)@,
            layouts(final(params)@) == layouts(old(params)@) + type_params(
                self.config,
                names_model(old(names)@),
                expr@,
            ),
            result@ == type_result(self.config, names_model(old(names)@), expr@),
        decreases *expr, 3nat,
    {
        let ghost names0 = names@;
        let ghost params0 = params@;
        match *expr {
            Expr::FunType { param, body } => {
                if self.config.fun_arrows && !body.references_local(RelativeVar::new()) {
                    let ty = self.expr_prec(names, param.ty, Prec::App);
                    names.push(None);
                    proof {
                        lemma_names_push(names0, None);
                    }
                    let body = self.expr_prec(names, body, Prec::Fun);
                    names.pop();
                    assert(names@ =~= names0);
                    assert(layouts(params@) =~= layouts(params0) + type_params(
                        self.config,
                        names_model(names0),
                        expr@,
                    ));
                    self.printer.arrow_expr(param.plicity, ty, body)
                } else {
                    params.push(self.fun_param(names, &param));
                    names.push(param.name);
                    proof {
                        lemma_names_push(names0, param.name);
                    }
                    let ghost params1 = params@;
                    let result = self.type_rest(names, body, params);
                    names.pop();
                    assert(names@ =~= names0);
                    assert(layouts(params1) =~= layouts(params0).push(params1.last()@));
                    assert(layouts(params@) =~= layouts(params0) + type_params(
                        self.config,
                        names_model(names0),
                        expr@,
                    ));
                    result
                }
            },
            _ => {
                assert(layouts(params@) =~= layouts(params0) + type_params(
                    self.config,
                    names_model(names0),
                    expr@,
                ));
                self.expr_prec(names, expr, Prec::Let)
            },
        }
    }

    /// Prints the parameters of the function literals at the head of `expr`
    /// onto `params` and returns what follows them.
    fn lit_rest(
        &self,
        names: &mut NameEnv<'core>,
        expr: &Expr<'core>,
        params: &mut Vec<Doc<'core>>,
    ) -> (result: Doc<'core>)
        requires
            self.config.print_names ==> expr@.scoped(old(names)@.len()),
        ensures
            final(names)@ == old(names)@,
            layouts(final(params)@) == layouts(old(params)@) + lit_params(
                self.config,
                names_model(old(names)@),
                expr@,
            ),
            result@ == lit_result(self.config, names_model(old(names)@), expr@),
        decreases *expr, 3nat,
    {
        let ghost names0 = names@;
        let ghost params0 = params@;
        match *expr {
            Expr::FunLit { param, body } => {
                params.push(self.fun_param(names, &param));
                names.push(param.name);
                proof {
                    lemma_names_push(names0, param.name);
                }
                let ghost params1 = params@;
                let result = self.lit_rest(names, body, params);
                names.pop();
                assert(names@ =~= names0);
                assert(layouts(params1) =~= layouts(params0).push(params1.last()@));
                assert(layouts(params@) =~= layouts(params0) + lit_params(
                    self.config,
                    names_model(names0),
                    expr@,
                ));
                result
            },
            _ => {
                assert(layouts(params@) =~= layouts(params0) + lit_params(
                    self.config,
                    names_model(names0),
                    expr@,
                ));
                self.expr_prec(names, expr, Prec::Let)
            },
        }
    }

    /// Prints the items of the list literal `expr` onto `items`, the first
    /// first.
    fn list_rest(&self, names: &mut NameEnv<'core>, expr: &Expr<'core>, items: &mut Vec<Doc<'core>>)
        requires
            self.config.print_names ==> expr@.scoped(old(names)@.len()),
        ensures
            final(names)@ == old(names)@,
            layouts(final(items)@) == layouts(old(items)@) + list_items(
                self.config,
                names_model(old(names)@),
                expr@,
            ),
        decreases *expr, 3nat,
    {
        let ghost names0 = names@;
        let ghost items0 = items@;
        match *expr {
            Expr::FunApp { fun, arg } => match arg.plicity {
                Plicity::Explicit => {
                    self.list_rest(names, fun, items);
                    let ghost items1 = items@;
                    items.push(self.expr_prec(names, arg.expr, Prec::Let));
                    assert(layouts(items@) =~= layouts(items1).push(items@.last()@));
                    assert(layouts(items@) =~= layouts(items0) + list_items(
                        self.config,
                        names_model(names0),
                        expr@,
                    ));
                },
                Plicity::Implicit => {
                    assert(layouts(items@) =~= layouts(items0) + list_items(
                        self.config,
                        names_model(names0),
                        expr@,
                    ));
                },
            },
            _ => {
                assert(layouts(items@) =~= layouts(items0) + list_items(
                    self.config,
                    names_model(names0),
                    expr@,
                ));
            },
        }
    }

    /// Prints the arguments of the applications at the head of `expr` onto
    /// `args`, the first applied first, and returns the function.
    fn app_rest(
        &self,
        names: &mut NameEnv<'core>,
        expr: &Expr<'core>,
        args: &mut Vec<Doc<'core>>,
    ) -> (head: Doc<'core>)
        requires
            self.config.print_names ==> expr@.scoped(old(names)@.len()),
        ensures
            final(names)@ == old(names)@,
            layouts(final(args)@) == layouts(old(args)@) + app_args(
                self.config,
                names_model(old(names)@),
                expr@,
            ),
            head@ == app_head(self.config, names_model(old(names)@), expr@),
        decreases *expr, 3nat,
    {
        let ghost names0 = names@;
        let ghost args0 = args@;
        match *expr {
            Expr::FunApp { fun, arg } => {
                let head = self.app_rest(names, fun, args);
                let ghost args1 = args@;
                args.push(self.fun_arg(names, &arg));
                assert(layouts(args@) =~= layouts(args1).push(args@.last()@));
                assert(layouts(args@) =~= layouts(args0) + app_args(
                    self.config,
                    names_model(names0),
                    expr@,
                ));
                head
            },
            _ => {
                assert(layouts(args@) =~= layouts(args0) + app_args(
                    self.config,
                    names_model(names0),
                    expr@,
                ));
                self.expr_prec(names, expr, Prec::App)
            },
        }
    }

    /// A record type: a tuple where its labels are those of a tuple.
    fn record_type(
        &self,
        names: &mut NameEnv<'core>,
        expr: &Expr<'core>,
        fields: &'core Vec<(Symbol<'core>, Expr<'core>)>,
    ) -> (doc: Doc<'core>)
        requires
            *expr == Expr::RecordType(fields),
            self.config.print_names ==> expr@.scoped(old(names)@.len()),
        ensures
            final(names)@ == old(names)@,
            doc@ == bare_layout(self.config, names_model(old(names)@), expr@),
        decreases *expr, 0nat,
    {
        let ghost names0 = names@;
        let ghost model0 = names_model(names0);
        let ghost term_fields = expr@->RecordType_0;
        let len0 = names.len();
        let tuple = fields_are_tuple(fields);
        proof {
            assert forall|i: int| 0 <= i < fields@.len() implies (#[trigger] term_fields[i])
                == (fields@[i].0@, fields@[i].1@) by {}
            if tuple {
                assert forall|i: int| 0 <= i < term_fields.len() implies (#[trigger] term_fields[i]).0
                    == tuple_label(i as nat) by {
                    assert(fields@[i].0@ == tuple_label(i as nat));
                }
            } else if is_tuple(term_fields) {
                assert forall|i: int| 0 <= i < fields@.len() implies (#[trigger] fields@[i]).0@
                    == tuple_label(i as nat) by {
                    assert(term_fields[i].0 == tuple_label(i as nat));
                }
            }
            assert(tuple == is_tuple(term_fields));
        }
        let mut docs: Vec<Doc<'core>> = Vec::new();
        let mut i: usize = 0;
        while i < fields.len()
            invariant
                i <= fields@.len(),
                docs@.len() == i,
                *expr == Expr::RecordType(fields),
                term_fields == expr@->RecordType_0,
                model0 == names_model(names0),
                len0.len == names0.len(),
                self.config.print_names ==> expr@.scoped(names0.len()),
                tuple ==> names@ == names0 + Seq::new(i as nat, |k: int| None::<Symbol<'core>>),
                !tuple ==> names@ == names0 + Seq::new(i as nat, |k: int| Some(fields@[k].0)),
                forall|j: int|
                    0 <= j < i ==> (#[trigger] docs@[j])@ == (if tuple {
                        expr_layout(
                            self.config,
                            with_unnamed(model0, j as nat),
                            term_fields[j].1,
                            Prec::Let,
                        )
                    } else {
                        l_record_type_field(
                            l_text(term_fields[j].0),
                            expr_layout(
                                self.config,
                                with_fields(model0, term_fields, j as nat),
                                term_fields[j].1,
                                Prec::Let,
                            ),
                        )
                    }),
            decreases fields@.len() - i,
        {
            proof {
                assert(decreases_to!(*fields => fields[i as int]));
                assert(term_fields[i as int] == (fields@[i as int].0@, fields@[i as int].1@));
                if tuple {
                    assert(names_model(names@) =~= with_unnamed(model0, i as nat));
                } else {
                    assert(names_model(names@) =~= with_fields(model0, term_fields, i as nat));
                }
            }
            let label = fields[i].0;
            let field = self.expr_prec(names, &fields[i].1, Prec::Let);
            if tuple {
                docs.push(field);
                names.push(None);
                assert(names@ =~= names0 + Seq::new((i + 1) as nat, |k: int| None::<Symbol<'core>>));
            } else {
                docs.push(self.printer.record_type_field(self.symbol(label), field));
                names.push(Some(label));
                assert(names@ =~= names0 + Seq::new(
                    (i + 1) as nat,
                    |k: int| Some(fields@[k].0),
                ));
            }
            i += 1;
        }
        names.truncate(len0);
        assert(names@ =~= names0);
        assert(layouts(docs@) =~= field_items(self.config, model0, expr@));
        if tuple {
            self.printer.tuple_expr(&docs)
        } else {
            self.printer.record_expr(&docs)
        }
    }

    /// A record: a tuple where its labels are those of a tuple.
    fn record_lit(
        &self,
        names: &mut NameEnv<'core>,
        expr: &Expr<'core>,
        fields: &'core Vec<(Symbol<'core>, Expr<'core>)>,
    ) -> (doc: Doc<'core>)
        requires
            *expr == Expr::RecordLit(fields),
            self.config.print_names ==> expr@.scoped(old(names)@.len()),
        ensures
            final(names)@ == old(names)@,
            doc@ == bare_layout(self.config, names_model(old(names)@), expr@),
        decreases *expr, 0nat,
    {
        let ghost names0 = names@;
        let ghost model0 = names_model(names0);
        let ghost term_fields = expr@->RecordLit_0;
        let tuple = fields_are_tuple(fields);
        proof {
            assert forall|i: int| 0 <= i < fields@.len() implies (#[trigger] term_fields[i])
                == (fields@[i].0@, fields@[i].1@) by {}
            if tuple {
                assert forall|i: int| 0 <= i < term_fields.len() implies (#[trigger] term_fields[i]).0
                    == tuple_label(i as nat) by {
                    assert(fields@[i].0@ == tuple_label(i as nat));
                }
            } else if is_tuple(term_fields) {
                assert forall|i: int| 0 <= i < fields@.len() implies (#[trigger] fields@[i]).0@
                    == tuple_label(i as nat) by {
                    assert(term_fields[i].0 == tuple_label(i as nat));
                }
            }
            assert(tuple == is_tuple(term_fields));
        }
        let mut docs: Vec<Doc<'core>> = Vec::new();
        let mut i: usize = 0;
        while i < fields.len()
            invariant
                i <= fields@.len(),
                docs@.len() == i,
                names@ == names0,
                *expr == Expr::RecordLit(fields),
                term_fields == expr@->RecordLit_0,
                model0 == names_model(names0),
                self.config.print_names ==> expr@.scoped(names0.len()),
                forall|j: int|
                    0 <= j < i ==> (#[trigger] docs@[j])@ == (if tuple {
                        expr_layout(self.config, model0, term_fields[j].1, Prec::Let)
                    } else {
                        l_record_lit_field(
                            l_text(term_fields[j].0),
                            expr_layout(self.config, model0, term_fields[j].1, Prec::Let),
                        )
                    }),
            decreases fields@.len() - i,
        {
            proof {
                assert(decreases_to!(*fields => fields[i as int]));
                assert(term_fields[i as int] == (fields@[i as int].0@, fields@[i as int].1@));
            }
            let label = fields[i].0;
            let field = self.expr_prec(names, &fields[i].1, Prec::Let);
            if tuple {
                docs.push(field);
            } else {
                docs.push(self.printer.record_lit_field(self.symbol(label), field));
            }
            i += 1;
        }
        assert(layouts(docs@) =~= field_items(self.config, model0, expr@));
        if tuple {
            self.printer.tuple_expr(&docs)
        } else {
            self.printer.record_expr(&docs)
        }
    }

    /// An argument of a function.
    fn fun_arg(&self, names: &mut NameEnv<'core>, arg: &FunArg<&'core Expr<'core>>) -> (doc: Doc<
        'core,
    >)
        requires
            self.config.print_names ==> arg.expr@.scoped(old(names)@.len()),
        ensures
            final(names)@ == old(names)@,
            doc@ == l_fun_arg(
                arg.plicity,
                expr_layout(self.config, names_model(old(names)@), arg.expr@, Prec::Atom),
            ),
        decreases *arg.expr, 3nat,
    {
        let expr = self.expr_prec(names, arg.expr, Prec::Atom);
        self.printer.fun_arg(arg.plicity, expr)
    }

    /// A parameter of a function.
    fn fun_param(
        &self,
        names: &mut NameEnv<'core>,
        param: &FunParam<'core, &'core Expr<'core>>,
    ) -> (doc: Doc<'core>)
        requires
            self.config.print_names ==> param.ty@.scoped(old(names)@.len()),
        ensures
            final(names)@ == old(names)@,
            doc@ == l_fun_param(
                param.plicity,
                name_layout(name_text(param.name)),
                expr_layout(self.config, names_model(old(names)@), param.ty@, Prec::Let),
            ),
        decreases *param.ty, 3nat,
    {
        let pat = self.name(param.name);
        let ty = self.expr_prec(names, param.ty, Prec::Let);
        self.printer.fun_param(param.plicity, pat, ty)
    }

    /// A local variable.
    fn local_var(&self, names: &NameEnv<'core>, var: RelativeVar) -> (doc: Doc<'core>)
        ensures
            doc@ == var_layout(self.config, names_model(names@), var.index as nat),
    {
        if self.config.print_names {
            match names.get_relative(var) {
                Some(Some(name)) => {
                    return self.symbol(*name);
                },
                _ => {},
            }
        }
        let s = String::from_str("_#");
        let s = s.concat(decimal_string(var.index).as_str());
        self.printer.text(s.as_str())
    }

    /// A literal.
    fn lit(&self, lit: Const) -> (doc: Doc<'core>)
        ensures
            doc@ == lit_layout(lit),
    {
        match lit {
            Const::Bool(true) => self.printer.text("true"),
            Const::Bool(false) => self.printer.text("false"),
            Const::Int(value) => self.printer.text(decimal_string(value as usize).as_str()),
        }
    }

    /// The name of a binder, `_` where it has none.
    fn name(&self, name: Option<Symbol>) -> (doc: Doc<'core>)
        ensures
            doc@ == name_layout(name_text(name)),
    {
        match name {
            None => self.printer.text("_"),
            Some(symbol) => self.symbol(symbol),
        }
    }

    /// A name.
    fn symbol(&self, symbol: Symbol) -> (doc: Doc<'core>)
        ensures
            doc@ == l_text(symbol@),
    {
        self.printer.text(symbol.as_str())
    }
}

} // verus!
