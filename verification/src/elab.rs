//! The state of an elaboration: the variables in scope, the metavariables
//! made so far, and the diagnostics reported.

use crate::arena::arena_alloc;
use crate::diagnostic::{Diagnostic, Label, Message, Severity};
use crate::env::{AbsoluteVar, EnvLen, RelativeVar, SharedEnv, UniqueEnv};
use crate::plicity::Plicity;
use crate::prim::Prim;
use crate::printer::{rendered, Printer};
use crate::quote::QuoteEnv;
use crate::semantics::{eval_spec, ElimEnv, EvalOpts, Head, Type, Value, ValueEnv};
use crate::source::TextRange;
use crate::symbol::{name_text, Symbol};
use crate::syntax::{Expr, FunArg, Term};
use crate::text::{decimal, decimal_string};
use crate::unelab::{expr_layout, names_model, Config, Prec, Unelaborator};
use crate::unify::{unify_rel, PartialRenaming, UnifyCtx, UnifyError};
use crate::zonk::{zonk_spec, EvalEnv, ZonkEnv};
use vstd::prelude::*;
use vstd::string::StringExecFns;

verus! {

/// How a local variable came into scope.
#[derive(Debug, Copy, Clone, PartialEq, Eq, Structural)]
pub enum LocalInfo {
    /// Bound by a `let`: it has a definition, which evaluation unfolds.
    Let,
    /// Bound by a function: it stands for any argument.
    Param,
}

/// The local variables in scope: for each its name, how it was bound, its
/// type and its value, on four stacks that grow and shrink together.
pub struct LocalEnv<'core> {
    pub bump: &'core bumpalo::Bump,
    pub names: UniqueEnv<Option<Symbol<'core>>>,
    pub infos: UniqueEnv<LocalInfo>,
    pub types: UniqueEnv<Type<'core>>,
    pub values: ValueEnv<'core>,
}

/// The position, counted from the end, of the last entry of `names` that is
/// `name`.
pub open spec fn is_innermost(names: Seq<Option<Symbol>>, name: Symbol, index: nat) -> bool {
    &&& index < names.len()
    &&& name_text(names[names.len() - 1 - index]) == Some(name@)
    &&& forall|j: int| 0 <= j < index ==> name_text(#[trigger] names[names.len() - 1 - j]) != Some(name@)
}

impl<'core> LocalEnv<'core> {
    /// The four stacks have one length.
    pub open spec fn wf(&self) -> bool {
        &&& self.infos@.len() == self.names@.len()
        &&& self.types@.len() == self.names@.len()
        &&& self.values@.len() == self.names@.len()
    }

    /// The environment with no variable in scope.
    pub fn new(bump: &'core bumpalo::Bump) -> (env: Self)
        ensures
            env.wf(),
            env.bump == bump,
            env.names@.len() == 0,
    {
        LocalEnv {
            bump,
            names: UniqueEnv::new(),
            infos: UniqueEnv::new(),
            types: UniqueEnv::new(),
            values: SharedEnv::new(),
        }
    }

    /// The number of variables in scope.
    pub fn len(&self) -> (n: EnvLen)
        ensures
            n.len == self.names@.len(),
    {
        self.names.len()
    }

    /// Brings a variable into scope.
    pub fn push(
        &mut self,
        name: Option<Symbol<'core>>,
        info: LocalInfo,
        ty: Type<'core>,
        value: Value<'core>,
    )
        ensures
            final(self).bump == old(self).bump,
            final(self).names@ == old(self).names@.push(name),
            final(self).infos@ == old(self).infos@.push(info),
            final(self).types@ == old(self).types@.push(ty),
            final(self).values@ == old(self).values@.push(value),
            final(self).values == old(self).values.pushed(value),
            old(self).wf() ==> final(self).wf(),
    {
        self.names.push(name);
        self.infos.push(info);
        self.types.push(ty);
        self.values.push(self.bump, value);
    }

    /// Brings into scope a variable that `let` binds to `value`.
    pub fn push_let(&mut self, name: Option<Symbol<'core>>, ty: Type<'core>, value: Value<'core>)
        ensures
            final(self).bump == old(self).bump,
            final(self).names@ == old(self).names@.push(name),
            final(self).infos@ == old(self).infos@.push(LocalInfo::Let),
            final(self).types@ == old(self).types@.push(ty),
            final(self).values@ == old(self).values@.push(value),
            final(self).values == old(self).values.pushed(value),
            old(self).wf() ==> final(self).wf(),
    {
        self.push(name, LocalInfo::Let, ty, value);
    }

    /// Brings into scope a parameter: its value is the variable itself, at
    /// the level that the next variable has.
    pub fn push_param(&mut self, name: Option<Symbol<'core>>, ty: Type<'core>)
        ensures
            final(self).bump == old(self).bump,
            final(self).names@ == old(self).names@.push(name),
            final(self).infos@ == old(self).infos@.push(LocalInfo::Param),
            final(self).types@ == old(self).types@.push(ty),
            final(self).values@ == old(self).values@.push(
                Value::Neutral(
                    Head::LocalVar(AbsoluteVar { level: old(self).names@.len() as usize }),
                    SharedEnv::Empty,
                ),
            ),
            final(self).values == old(self).values.pushed(
                Value::Neutral(
                    Head::LocalVar(AbsoluteVar { level: old(self).names@.len() as usize }),
                    SharedEnv::Empty,
                ),
            ),
            old(self).wf() ==> final(self).wf(),
    {
        let var = Value::local_var(self.len().to_absolute());
        self.push(name, LocalInfo::Param, ty, var);
    }

    /// Takes the variable bound last out of scope. Does nothing where no
    /// variable is in scope.
    pub fn pop(&mut self)
        requires
            old(self).wf(),
        ensures
            final(self).wf(),
            final(self).bump == old(self).bump,
            old(self).names@.len() == 0 ==> {
                &&& final(self).names@ == old(self).names@
                &&& final(self).infos@ == old(self).infos@
                &&& final(self).types@ == old(self).types@
                &&& final(self).values@ == old(self).values@
            },
            old(self).names@.len() > 0 ==> {
                &&& final(self).names@ == old(self).names@.drop_last()
                &&& final(self).infos@ == old(self).infos@.drop_last()
                &&& final(self).types@ == old(self).types@.drop_last()
                &&& final(self).values@ == old(self).values@.drop_last()
            },
            final(self).values == old(self).values.popped(),
    {
        self.names.pop();
        self.infos.pop();
        self.types.pop();
        self.values.pop();
    }

    /// Takes variables out of scope until at most `len` are left.
    pub fn truncate(&mut self, len: EnvLen)
        requires
            old(self).wf(),
        ensures
            final(self).wf(),
            final(self).bump == old(self).bump,
            len.len > old(self).names@.len() ==> {
                &&& final(self).names@ == old(self).names@
                &&& final(self).infos@ == old(self).infos@
                &&& final(self).types@ == old(self).types@
                &&& final(self).values@ == old(self).values@
            },
            len.len <= old(self).names@.len() ==> {
                &&& final(self).names@ == old(self).names@.take(len.len as int)
                &&& final(self).infos@ == old(self).infos@.take(len.len as int)
                &&& final(self).types@ == old(self).types@.take(len.len as int)
                &&& final(self).values@ == old(self).values@.take(len.len as int)
            },
    {
        proof {
            assert(self.names@.len() == self.names.elems.len());
        }
        self.values.truncate(len);
        self.names.truncate(len);
        self.infos.truncate(len);
        self.types.truncate(len);
    }

    /// Looks a name up: the index of the innermost variable of that name.
    pub fn lookup(&self, sym: Symbol) -> (r: Option<RelativeVar>)
        ensures
            match r {
                Some(var) => is_innermost(self.names@, sym, var.index as nat),
                None => forall|i: int|
                    0 <= i < self.names@.len() ==> name_text(#[trigger] self.names@[i]) != Some(
                        sym@,
                    ),
            },
    {
        let n = self.names.len().len;
        let mut index: usize = 0;
        while index < n
            invariant
                index <= n,
                n == self.names@.len(),
                forall|j: int|
                    0 <= j < index ==> name_text(#[trigger] self.names@[n - 1 - j]) != Some(sym@),
            decreases n - index,
        {
            let found = match self.names.elems[n - 1 - index] {
                Some(name) => name == sym,
                None => false,
            };
            if found {
                return Some(RelativeVar { index });
            }
            index += 1;
        }
        proof {
            assert forall|i: int| 0 <= i < self.names@.len() implies name_text(
                #[trigger] self.names@[i],
            ) != Some(sym@) by {
                assert(self.names@[i] == self.names@[n - 1 - (n - 1 - i)]);
            }
        }
        None
    }

    /// The value of the variable that the next binder binds.
    pub fn next_var(&self) -> (v: Value<'core>)
        ensures
            v == Value::Neutral(
                Head::LocalVar(AbsoluteVar { level: self.names@.len() as usize }),
                SharedEnv::Empty,
            ),
    {
        Value::local_var(self.len().to_absolute())
    }
}

/// Where a metavariable came from: what the user would have had to write
/// for it not to be needed.
#[derive(Debug, Copy, Clone)]
pub enum MetaSource<'core> {
    /// The type of a pattern without annotation.
    PatType { range: TextRange, name: Option<Symbol<'core>> },
    /// The type of a hole.
    HoleType { range: TextRange },
    /// The term that a hole stands for.
    HoleExpr { range: TextRange },
    /// An implicit argument that elaboration inserted.
    ImplicitArg { range: TextRange, name: Option<Symbol<'core>> },
    /// The type of the items of an empty list literal.
    ListElemType { range: TextRange },
}

impl<'core> MetaSource<'core> {
    /// The range of the source text that the metavariable came from.
    pub fn range(&self) -> (r: TextRange)
        ensures
            r == self.spec_range(),
    {
        match *self {
            MetaSource::PatType { range, .. } => range,
            MetaSource::HoleType { range } => range,
            MetaSource::HoleExpr { range } => range,
            MetaSource::ImplicitArg { range, .. } => range,
            MetaSource::ListElemType { range } => range,
        }
    }

    /// The range of the source text that the metavariable came from.
    pub open spec fn spec_range(self) -> TextRange {
        match self {
            MetaSource::PatType { range, .. } => range,
            MetaSource::HoleType { range } => range,
            MetaSource::HoleExpr { range } => range,
            MetaSource::ImplicitArg { range, .. } => range,
            MetaSource::ListElemType { range } => range,
        }
    }

    /// What could not be inferred, in words.
    pub open spec fn describe(self) -> Seq<char> {
        match self {
            MetaSource::PatType { name: Some(name), .. } => "type of variable `"@ + name@ + "`"@,
            MetaSource::PatType { name: None, .. } => "type of placeholder pattern"@,
            MetaSource::HoleType { .. } => "type of hole"@,
            MetaSource::HoleExpr { .. } => "expression to solve hole"@,
            MetaSource::ImplicitArg { name: Some(name), .. } => "implicit argument `"@ + name@
                + "`"@,
            MetaSource::ImplicitArg { name: None, .. } => "implicit argument"@,
            MetaSource::ListElemType { .. } => "element type of empty list"@,
        }
    }

    /// What could not be inferred, in words.
    pub fn description(&self) -> (s: String)
        ensures
            s@ == self.describe(),
    {
        match *self {
            MetaSource::PatType { name: Some(name), .. } => {
                let s = String::from_str("type of variable `");
                let s = s.concat(name.as_str());
                s.concat("`")
            },
            MetaSource::PatType { name: None, .. } => String::from_str(
                "type of placeholder pattern",
            ),
            MetaSource::HoleType { .. } => String::from_str("type of hole"),
            MetaSource::HoleExpr { .. } => String::from_str("expression to solve hole"),
            MetaSource::ImplicitArg { name: Some(name), .. } => {
                let s = String::from_str("implicit argument `");
                let s = s.concat(name.as_str());
                s.concat("`")
            },
            MetaSource::ImplicitArg { name: None, .. } => String::from_str("implicit argument"),
            MetaSource::ListElemType { .. } => String::from_str("element type of empty list"),
        }
    }
}

/// The metavariables made so far: for each where it came from, its type, and
/// its solution once it has one.
pub struct MetaEnv<'core> {
    pub sources: UniqueEnv<MetaSource<'core>>,
    pub types: UniqueEnv<Type<'core>>,
    pub values: UniqueEnv<Option<Value<'core>>>,
}

impl<'core> MetaEnv<'core> {
    /// The three stacks have one length.
    pub open spec fn wf(&self) -> bool {
        &&& self.types@.len() == self.sources@.len()
        &&& self.values@.len() == self.sources@.len()
    }

    /// No metavariable.
    pub fn new() -> (env: Self)
        ensures
            env.wf(),
            env.sources@.len() == 0,
    {
        MetaEnv { sources: UniqueEnv::new(), types: UniqueEnv::new(), values: UniqueEnv::new() }
    }

    /// The number of metavariables.
    pub fn len(&self) -> (n: EnvLen)
        ensures
            n.len == self.sources@.len(),
    {
        self.sources.len()
    }

    /// Makes a metavariable of type `ty`, without a solution.
    pub fn push(&mut self, source: MetaSource<'core>, ty: Type<'core>)
        ensures
            final(self).sources@ == old(self).sources@.push(source),
            final(self).types@ == old(self).types@.push(ty),
            final(self).values@ == old(self).values@.push(None),
            old(self).wf() ==> final(self).wf(),
    {
        self.sources.push(source);
        self.types.push(ty);
        self.values.push(None);
    }

    /// The metavariable of level `var`: where it came from, its type and its
    /// solution.
    pub fn get(&self, var: AbsoluteVar) -> (r: Option<
        (MetaSource<'core>, Type<'core>, Option<Value<'core>>),
    >)
        requires
            self.wf(),
        ensures
            var.level < self.sources@.len() ==> r == Some(
                (
                    self.sources@[var.level as int],
                    self.types@[var.level as int],
                    self.values@[var.level as int],
                ),
            ),
            var.level >= self.sources@.len() ==> r is None,
    {
        if var.level < self.sources.elems.len() {
            Some(
                (
                    self.sources.elems[var.level],
                    self.types.elems[var.level],
                    self.values.elems[var.level],
                ),
            )
        } else {
            None
        }
    }
}

/// The levels below `n` of the metavariables that have no solution,
/// ascending.
pub open spec fn unsolved_below(values: Seq<Option<Value>>, n: nat) -> Seq<nat>
    decreases n,
{
    if n == 0 {
        Seq::empty()
    } else {
        let before = unsolved_below(values, (n - 1) as nat);
        if values[n - 1] is None {
            before.push((n - 1) as nat)
        } else {
            before
        }
    }
}

/// Whether `d` is the report that metavariable `id`, which came from
/// `source`, has no solution.
pub open spec fn reports_unsolved(d: Diagnostic, file_id: usize, id: nat, source: MetaSource) -> bool {
    &&& d.severity == Severity::Error
    &&& d.message@ == "Unsolved metavariable: ?"@ + decimal(id)
    &&& d.primary_label.file_id == file_id
    &&& d.primary_label.range == source.spec_range()
    &&& d.primary_label.message is Some
    &&& d.primary_label.message->0@ == "could not infer "@ + source.describe()
    &&& d.secondary_labels@.len() == 0
}

/// A metavariable applied to the parameters among the first `upto` local
/// variables: to each in turn, the first bound first, as an explicit
/// argument.
pub open spec fn applied_to_params(meta: nat, infos: Seq<LocalInfo>, upto: nat) -> Term
    decreases upto,
{
    if upto == 0 {
        Term::MetaVar(meta)
    } else {
        let fun = applied_to_params(meta, infos, (upto - 1) as nat);
        match infos[upto - 1] {
            LocalInfo::Let => fun,
            LocalInfo::Param => Term::FunApp {
                fun: Box::new(fun),
                plicity: Plicity::Explicit,
                arg: Box::new(Term::LocalVar((infos.len() - upto) as nat)),
            },
        }
    }
}

/// An elaboration in progress.
pub struct Elaborator<'core, 'text> {
    pub bump: &'core bumpalo::Bump,
    pub text: &'text str,
    pub file_id: usize,
    /// What was reported so far, in the order of discovery.
    pub diagnostics: Vec<Diagnostic>,
    pub local_env: LocalEnv<'core>,
    pub meta_env: MetaEnv<'core>,
    /// The renaming that the unifier works in.
    pub renaming: PartialRenaming,
    /// How many nested steps an evaluation may take.
    pub fuel: usize,
}

/// How many nested steps an evaluation may take, unless the elaborator is
/// told otherwise.
pub const DEFAULT_FUEL: usize = 4096;

impl<'core, 'text> Elaborator<'core, 'text> {
    /// The environments are well formed and share the elaborator's arena.
    pub open spec fn wf(&self) -> bool {
        &&& self.local_env.wf()
        &&& self.meta_env.wf()
        &&& self.local_env.bump == self.bump
    }

    /// An elaboration of `text`, the text of file `file_id`, that has not
    /// begun: nothing in scope, no metavariable, nothing reported.
    pub fn new(bump: &'core bumpalo::Bump, text: &'text str, file_id: usize) -> (e: Self)
        ensures
            e.wf(),
            e.bump == bump,
            e.text == text,
            e.file_id == file_id,
            e.diagnostics@.len() == 0,
            e.local_env.names@.len() == 0,
            e.meta_env.sources@.len() == 0,
            e.fuel == DEFAULT_FUEL,
    {
        Elaborator {
            bump,
            text,
            file_id,
            diagnostics: Vec::new(),
            local_env: LocalEnv::new(bump),
            meta_env: MetaEnv::new(),
            renaming: PartialRenaming::new(),
            fuel: DEFAULT_FUEL,
        }
    }

    /// Records a diagnostic.
    pub fn report_diagnostic(&mut self, diagnostic: Diagnostic)
        ensures
            final(self).diagnostics@ == old(self).diagnostics@.push(diagnostic),
            final(self).bump == old(self).bump,
            final(self).text == old(self).text,
            final(self).file_id == old(self).file_id,
            final(self).local_env == old(self).local_env,
            final(self).meta_env == old(self).meta_env,
            final(self).fuel == old(self).fuel,
    {
        self.diagnostics.push(diagnostic);
    }

    /// Reports each metavariable that has no solution, in the order in which
    /// they were made.
    pub fn report_unsolved_metas(&mut self)
        requires
            old(self).meta_env.wf(),
        ensures
            final(self).bump == old(self).bump,
            final(self).text == old(self).text,
            final(self).file_id == old(self).file_id,
            final(self).local_env == old(self).local_env,
            final(self).meta_env == old(self).meta_env,
            final(self).fuel == old(self).fuel,
            ({
                let ids = unsolved_below(
                    old(self).meta_env.values@,
                    old(self).meta_env.values@.len(),
                );
                let before = old(self).diagnostics@;
                let after = final(self).diagnostics@;
                &&& after.len() == before.len() + ids.len()
                &&& after.take(before.len() as int) == before
                &&& forall|k: int|
                    0 <= k < ids.len() ==> reports_unsolved(
                        #[trigger] after[before.len() + k],
                        old(self).file_id,
                        ids[k],
                        old(self).meta_env.sources@[ids[k] as int],
                    )
            }),
    {
        let n = self.meta_env.values.elems.len();
        let ghost before = self.diagnostics@;
        let ghost values = self.meta_env.values@;
        let mut id: usize = 0;
        proof {
            assert(self.diagnostics@.take(before.len() as int) =~= before);
        }
        while id < n
            invariant
                id <= n,
                n == values.len(),
                self.meta_env.wf(),
                self.bump == old(self).bump,
                self.text == old(self).text,
                self.file_id == old(self).file_id,
                self.local_env == old(self).local_env,
                self.meta_env == old(self).meta_env,
                self.fuel == old(self).fuel,
                values == self.meta_env.values@,
                before == old(self).diagnostics@,
                self.diagnostics@.len() == before.len() + unsolved_below(values, id as nat).len(),
                self.diagnostics@.take(before.len() as int) == before,
                forall|k: int|
                    0 <= k < unsolved_below(values, id as nat).len() ==> reports_unsolved(
                        #[trigger] self.diagnostics@[before.len() + k],
                        self.file_id,
                        unsolved_below(values, id as nat)[k],
                        self.meta_env.sources@[unsolved_below(values, id as nat)[k] as int],
                    ),
            decreases n - id,
        {
            let ghost reported = self.diagnostics@;
            let ghost ids = unsolved_below(values, id as nat);
            if self.meta_env.values.elems[id].is_none() {
                let source = self.meta_env.sources.elems[id];
                let message = String::from_str("Unsolved metavariable: ?");
                let message = message.concat(decimal_string(id).as_str());
                let remark = String::from_str("could not infer ");
                let remark = remark.concat(source.description().as_str());
                let label = Label::new(self.file_id, source.range()).with_message(
                    Message::text(remark.as_str()),
                );
                let diagnostic = Diagnostic::error(Message::text(message.as_str()), label);
                assert(reports_unsolved(diagnostic, self.file_id, id as nat, source));
                self.diagnostics.push(diagnostic);
                proof {
                    assert(self.diagnostics@.take(before.len() as int) =~= reported.take(
                        before.len() as int,
                    ));
                    assert(unsolved_below(values, (id + 1) as nat) == ids.push(id as nat));
                    assert forall|k: int|
                        0 <= k < ids.len() + 1 implies reports_unsolved(
                        #[trigger] self.diagnostics@[before.len() + k],
                        self.file_id,
                        ids.push(id as nat)[k],
                        self.meta_env.sources@[ids.push(id as nat)[k] as int],
                    ) by {
                        if k < ids.len() {
                            assert(self.diagnostics@[before.len() + k] == reported[before.len()
                                + k]);
                        }
                    }
                }
            } else {
                proof {
                    assert(unsolved_below(values, (id + 1) as nat) == ids);
                }
            }
            id += 1;
        }
    }

    /// Makes a metavariable of type `ty` and returns the term that stands
    /// for it in the present scope: the metavariable applied to every
    /// parameter in scope, so that its solution is a closed term. Variables
    /// bound by `let` are left out: evaluation unfolds them.
    pub fn push_unsolved_expr(&mut self, source: MetaSource<'core>, ty: Type<'core>) -> (r: Expr<
        'core,
    >)
        requires
            old(self).wf(),
        ensures
            final(self).wf(),
            final(self).bump == old(self).bump,
            final(self).text == old(self).text,
            final(self).file_id == old(self).file_id,
            final(self).diagnostics == old(self).diagnostics,
            final(self).local_env == old(self).local_env,
            final(self).fuel == old(self).fuel,
            final(self).meta_env.sources@ == old(self).meta_env.sources@.push(source),
            final(self).meta_env.types@ == old(self).meta_env.types@.push(ty),
            final(self).meta_env.values@ == old(self).meta_env.values@.push(None),
            r@ == applied_to_params(
                old(self).meta_env.sources@.len(),
                old(self).local_env.infos@,
                old(self).local_env.infos@.len(),
            ),
    {
        let var = self.meta_env.len().to_absolute();
        self.meta_env.push(source, ty);
        let ghost infos = self.local_env.infos@;
        let n = self.local_env.infos.elems.len();
        let mut expr = Expr::MetaVar(var);
        let mut level: usize = 0;
        while level < n
            invariant
                level <= n,
                n == infos.len(),
                infos == self.local_env.infos@,
                self.bump == old(self).bump,
                expr@ == applied_to_params(var.level as nat, infos, level as nat),
            decreases n - level,
        {
            match self.local_env.infos.elems[level] {
                LocalInfo::Let => {},
                LocalInfo::Param => {
                    let arg = Expr::LocalVar(RelativeVar { index: n - 1 - level });
                    let fun = arena_alloc(self.bump, expr);
                    let arg = arena_alloc(self.bump, arg);
                    assert(arg@ == Term::LocalVar((n - 1 - level) as nat));
                    assert(fun@ == applied_to_params(var.level as nat, infos, level as nat));
                    expr = Expr::FunApp { fun, arg: FunArg::new(Plicity::Explicit, arg) };
                },
            }
            level += 1;
        }
        expr
    }

    /// Makes a metavariable for a type and returns its value in the present
    /// scope; `None` where the evaluation runs out of fuel, in which case the
    /// metavariable is made all the same.
    pub fn push_unsolved_type(&mut self, source: MetaSource<'core>) -> (r: Option<Value<'core>>)
        requires
            old(self).wf(),
        ensures
            final(self).wf(),
            final(self).bump == old(self).bump,
            final(self).text == old(self).text,
            final(self).file_id == old(self).file_id,
            final(self).diagnostics == old(self).diagnostics,
            final(self).local_env == old(self).local_env,
            final(self).fuel == old(self).fuel,
            final(self).meta_env.sources@ == old(self).meta_env.sources@.push(source),
            final(self).meta_env.types@ == old(self).meta_env.types@.push(Value::Prim(Prim::Type)),
            final(self).meta_env.values@ == old(self).meta_env.values@.push(None),
            exists|expr: Expr<'core>|
                expr@ == applied_to_params(
                    old(self).meta_env.sources@.len(),
                    old(self).local_env.infos@,
                    old(self).local_env.infos@.len(),
                ) && r == eval_spec(
                    EvalOpts { unfold_fix: false, unfold_let: true },
                    final(self).meta_env.values@,
                    old(self).local_env.values,
                    expr,
                    old(self).fuel as nat,
                ),
    {
        let expr = self.push_unsolved_expr(source, Value::type_of_types());
        let fuel = self.fuel;
        self.eval_env().eval(&expr, fuel)
    }

    /// What unification needs besides the solutions of the metavariables,
    /// from the state of the elaboration.
    pub fn unify_env(&self) -> (ctx: UnifyCtx<'core, '_>)
        ensures
            ctx.bump == self.bump,
            ctx.opts == (EvalOpts { unfold_fix: false, unfold_let: true }),
            ctx.local_len.len == self.local_env.names@.len(),
            ctx.local_types == &self.local_env.types,
    {
        UnifyCtx::new(self.bump, self.local_env.len(), &self.local_env.types)
    }

    /// Unifies two values in the present scope.
    pub fn unify(&mut self, lhs: &Value<'core>, rhs: &Value<'core>) -> (r: Result<(), UnifyError>)
        requires
            old(self).wf(),
        ensures
            final(self).wf(),
            final(self).bump == old(self).bump,
            final(self).text == old(self).text,
            final(self).file_id == old(self).file_id,
            final(self).diagnostics == old(self).diagnostics,
            final(self).local_env == old(self).local_env,
            final(self).fuel == old(self).fuel,
            final(self).meta_env.sources == old(self).meta_env.sources,
            final(self).meta_env.types == old(self).meta_env.types,
            crate::unify::keeps_solutions(
                old(self).meta_env.values@,
                final(self).meta_env.values@,
            ),
            unify_rel(
                EvalOpts { unfold_fix: false, unfold_let: true },
                old(self).local_env.types@,
                old(self).local_env.names@.len() as usize,
                *lhs,
                *rhs,
                old(self).fuel as nat,
                old(self).meta_env.values@,
                r,
                final(self).meta_env.values@,
            ),
    {
        let ctx = UnifyCtx::new(self.bump, self.local_env.len(), &self.local_env.types);
        let ghost before = self.meta_env.values@;
        let r = ctx.unify(&mut self.renaming, &mut self.meta_env.values, lhs, rhs, self.fuel);
        proof {
            crate::unify::lemma_unify_keeps_solutions(
                ctx.opts,
                self.local_env.types@,
                ctx.local_len.len,
                *lhs,
                *rhs,
                self.fuel as nat,
                before,
                r,
                self.meta_env.values@,
            );
        }
        r
    }

    /// What eliminations need, from the state of the elaboration.
    pub fn elim_env(&self) -> (env: ElimEnv<'core, '_>)
        ensures
            env.bump == self.bump,
            env.opts == (EvalOpts { unfold_fix: false, unfold_let: true }),
            env.meta_values == &self.meta_env.values,
    {
        ElimEnv::new(self.bump, EvalOpts::default(), &self.meta_env.values)
    }

    /// What evaluation needs, from the state of the elaboration.
    pub fn eval_env(&self) -> (env: EvalEnv<'core, '_>)
        ensures
            env.elim_env.bump == self.bump,
            env.elim_env.opts == (EvalOpts { unfold_fix: false, unfold_let: true }),
            env.elim_env.meta_values == &self.meta_env.values,
            env.local_values == self.local_env.values,
    {
        EvalEnv::new(
            self.bump,
            EvalOpts::default(),
            self.local_env.values,
            &self.meta_env.values,
        )
    }

    /// What reading back needs, from the state of the elaboration.
    pub fn quote_env(&self) -> (env: QuoteEnv<'core, '_>)
        ensures
            env.elim_env.bump == self.bump,
            env.elim_env.opts == (EvalOpts { unfold_fix: false, unfold_let: true }),
            env.elim_env.meta_values == &self.meta_env.values,
            env.local_len.len == self.local_env.names@.len(),
    {
        QuoteEnv::new(self.bump, self.local_env.len(), &self.meta_env.values)
    }

    /// What putting solutions in place needs, from the state of the
    /// elaboration.
    pub fn zonk_env(&self) -> (env: ZonkEnv<'core, '_>)
        ensures
            env.elim_env.bump == self.bump,
            env.elim_env.opts == (EvalOpts { unfold_fix: false, unfold_let: true }),
            env.elim_env.meta_values == &self.meta_env.values,
            env.local_values == self.local_env.values,
    {
        ZonkEnv::new(self.bump, self.local_env.values, &self.meta_env.values)
    }

    /// The text of `expr` as the user is to see it, on one line: with the
    /// solutions of the metavariables in their place, and the variables
    /// under the names in scope. `#error` where putting the solutions in
    /// place runs out of fuel, or leaves a variable that is not in scope.
    pub fn pretty(&mut self, expr: &Expr<'core>) -> (r: String)
        requires
            old(self).wf(),
        ensures
            final(self).wf(),
            final(self).bump == old(self).bump,
            final(self).text == old(self).text,
            final(self).file_id == old(self).file_id,
            final(self).diagnostics == old(self).diagnostics,
            final(self).meta_env == old(self).meta_env,
            final(self).fuel == old(self).fuel,
            final(self).local_env.bump == old(self).local_env.bump,
            final(self).local_env.names@ == old(self).local_env.names@,
            final(self).local_env.infos == old(self).local_env.infos,
            final(self).local_env.types == old(self).local_env.types,
            final(self).local_env.values == old(self).local_env.values,
            match zonk_spec(
                EvalOpts { unfold_fix: false, unfold_let: true },
                old(self).meta_env.values@,
                old(self).local_env.values,
                old(self).local_env.values.level(),
                *expr,
                old(self).fuel as nat,
            ) {
                Some(term) => if term.scoped(old(self).local_env.names@.len()) {
                    r@ == rendered(
                        expr_layout(
                            Config { print_names: true, fun_arrows: true },
                            names_model(old(self).local_env.names@),
                            term,
                            Prec::Let,
                        ),
                        usize::MAX as nat,
                    )
                } else {
                    r@ == "#error"@
                },
                None => r@ == "#error"@,
            },
    {
        let zonked = match self.zonk_env().zonk(expr, self.fuel) {
            Some(zonked) => zonked,
            None => {
                return String::from_str("#error");
            },
        };
        if !zonked.is_scoped(self.local_env.len()) {
            return String::from_str("#error");
        }
        let unelaborator = Unelaborator::new(Printer::new(self.bump), Config::default());
        unelaborator.expr(&mut self.local_env.names, &zonked).pretty(usize::MAX)
    }

    /// Brings the bindings into scope, each with the value of its
    /// initialiser and the value of its type. Stops at the first whose
    /// evaluation runs out of fuel, and returns how many it brought in.
    #[verifier::loop_isolation(false)]
    pub fn push_let_bindings(
        &mut self,
        bindings: &[(Option<Symbol<'core>>, Expr<'core>, Expr<'core>)],
    ) -> (count: usize)
        requires
            old(self).wf(),
        ensures
            final(self).wf(),
            final(self).bump == old(self).bump,
            final(self).text == old(self).text,
            final(self).file_id == old(self).file_id,
            final(self).diagnostics == old(self).diagnostics,
            final(self).meta_env == old(self).meta_env,
            final(self).fuel == old(self).fuel,
            count <= bindings@.len(),
            bound_env(
                old(self).meta_env.values@,
                old(self).local_env.values,
                bindings@,
                count as nat,
                old(self).fuel,
            ) == Some(final(self).local_env.values),
            final(self).local_env.types@ == old(self).local_env.types@ + bound_types(
                old(self).meta_env.values@,
                old(self).local_env.values,
                bindings@,
                count as nat,
                old(self).fuel,
            ),
            final(self).local_env.names@ == old(self).local_env.names@ + Seq::new(
                count as nat,
                |i: int| bindings@[i].0,
            ),
            final(self).local_env.infos@ == old(self).local_env.infos@ + Seq::new(
                count as nat,
                |i: int| LocalInfo::Let,
            ),
            count < bindings@.len() ==> bound_env(
                old(self).meta_env.values@,
                old(self).local_env.values,
                bindings@,
                (count + 1) as nat,
                old(self).fuel,
            ) is None,
    {
        let mut i: usize = 0;
        let ghost metas = self.meta_env.values@;
        let ghost env0 = self.local_env.values;
        let ghost types0 = self.local_env.types@;
        let ghost names0 = self.local_env.names@;
        let ghost infos0 = self.local_env.infos@;
        let fuel = self.fuel;
        proof {
            assert(self.local_env.types@ =~= types0 + bound_types(metas, env0, bindings@, 0, fuel));
            assert(self.local_env.names@ =~= names0 + Seq::new(0, |i: int| bindings@[i].0));
            assert(self.local_env.infos@ =~= infos0 + Seq::new(0, |i: int| LocalInfo::Let));
        }
        while i < bindings.len()
            invariant
                i <= bindings@.len(),
                self.wf(),
                self.bump == old(self).bump,
                self.text == old(self).text,
                self.file_id == old(self).file_id,
                self.diagnostics == old(self).diagnostics,
                self.meta_env == old(self).meta_env,
                self.fuel == old(self).fuel,
                fuel == self.fuel,
                metas == self.meta_env.values@,
                bound_env(metas, env0, bindings@, i as nat, fuel) == Some(self.local_env.values),
                self.local_env.types@ == types0 + bound_types(
                    metas,
                    env0,
                    bindings@,
                    i as nat,
                    fuel,
                ),
                self.local_env.names@ == names0 + Seq::new(i as nat, |k: int| bindings@[k].0),
                self.local_env.infos@ == infos0 + Seq::new(i as nat, |k: int| LocalInfo::Let),
            decreases bindings@.len() - i,
        {
            let (name, ty, init) = bindings[i];
            let value = match self.eval_env().eval(&init, fuel) {
                Some(value) => value,
                None => {
                    return i;
                },
            };
            let ty = match self.eval_env().eval(&ty, fuel) {
                Some(ty) => ty,
                None => {
                    return i;
                },
            };
            self.local_env.push_let(name, ty, value);
            proof {
                assert(self.local_env.types@ =~= types0 + bound_types(
                    metas,
                    env0,
                    bindings@,
                    (i + 1) as nat,
                    fuel,
                ));
                assert(self.local_env.names@ =~= names0 + Seq::new(
                    (i + 1) as nat,
                    |k: int| bindings@[k].0,
                ));
                assert(self.local_env.infos@ =~= infos0 + Seq::new(
                    (i + 1) as nat,
                    |k: int| LocalInfo::Let,
                ));
            }
            i += 1;
        }
        i
    }
}

/// The values of the variables in scope after the first `count` bindings
/// were brought in, each with the value of its initialiser where the
/// bindings before it are in scope; `None` where one of those evaluations, or
/// that of the type of one of those bindings, runs out of fuel.
pub open spec fn bound_env<'core>(
    metas: Seq<Option<Value<'core>>>,
    env: ValueEnv<'core>,
    bindings: Seq<(Option<Symbol<'core>>, Expr<'core>, Expr<'core>)>,
    count: nat,
    fuel: usize,
) -> Option<ValueEnv<'core>>
    decreases count,
{
    let opts = EvalOpts { unfold_fix: false, unfold_let: true };
    if count == 0 {
        Some(env)
    } else {
        match bound_env(metas, env, bindings, (count - 1) as nat, fuel) {
            Some(before) => match eval_spec(opts, metas, before, bindings[count - 1].2, fuel as nat) {
                Some(value) => match eval_spec(
                    opts,
                    metas,
                    before,
                    bindings[count - 1].1,
                    fuel as nat,
                ) {
                    Some(_) => Some(before.pushed(value)),
                    None => None,
                },
                None => None,
            },
            None => None,
        }
    }
}

/// The types of the first `count` bindings, each the value of its
/// annotation where the bindings before it are in scope.
pub open spec fn bound_types<'core>(
    metas: Seq<Option<Value<'core>>>,
    env: ValueEnv<'core>,
    bindings: Seq<(Option<Symbol<'core>>, Expr<'core>, Expr<'core>)>,
    count: nat,
    fuel: usize,
) -> Seq<Value<'core>>
    decreases count,
{
    let opts = EvalOpts { unfold_fix: false, unfold_let: true };
    if count == 0 {
        Seq::empty()
    } else {
        bound_types(metas, env, bindings, (count - 1) as nat, fuel).push(
            eval_spec(
                opts,
                metas,
                bound_env(metas, env, bindings, (count - 1) as nat, fuel)->0,
                bindings[count - 1].1,
                fuel as nat,
            )->0,
        )
    }
}

} // verus!
