//! Compiling the arms of a match to a decision tree.
//!
//! The arms are the rows of a matrix with one column for each part of the
//! scrutinee that is looked at. The leftmost column in which the first row
//! has a constructor is taken: a record pattern is replaced by one column
//! for each of its fields; a literal splits the rows by the possible
//! values, and each part is compiled in turn. A first row of wildcards is
//! the arm that is taken.

use super::constructors::{ints_of, lemma_insert_ascending, strictly_ascending, IntKeys};
use super::matrix::PatRow;
use crate::symbol::Symbol;
use crate::syntax::{Const, Pat};
use vstd::prelude::*;

verus! {

/// The mathematical model of a pattern: what it asks of a value. A binder,
/// `_` and a pattern that failed to elaborate ask for nothing.
pub enum PatModel {
    Wild,
    Lit(Const),
    Record(Seq<(Seq<char>, PatModel)>),
}

/// The model of a pattern.
pub open spec fn pat_model(pat: Pat) -> PatModel
    decreases pat,
{
    match pat {
        Pat::Error | Pat::Underscore | Pat::Ident(_) => PatModel::Wild,
        Pat::Lit(lit) => PatModel::Lit(lit),
        Pat::RecordLit(fields) => PatModel::Record(
            Seq::new(
                fields@.len(),
                |i: int|
                    if 0 <= i < fields@.len() {
                        (fields@[i].0@, pat_model(fields@[i].1))
                    } else {
                        (Seq::empty(), PatModel::Wild)
                    },
            ),
        ),
    }
}

/// The model of a row: its patterns, whether it has a guard, and the number
/// of its arm.
pub struct RowModel {
    pub pats: Seq<PatModel>,
    pub guarded: bool,
    pub body: nat,
}

/// The model of a row.
pub open spec fn row_model(row: PatRow) -> RowModel {
    RowModel {
        pats: Seq::new(row.pats@.len(), |i: int| pat_model(row.pats@[i])),
        guarded: row.guard is Some,
        body: row.body as nat,
    }
}

/// The models of rows.
pub open spec fn rows_model(rows: Seq<PatRow>) -> Seq<RowModel> {
    Seq::new(rows.len(), |i: int| row_model(rows[i]))
}

/// The part of the scrutinee that a column looks at: the labels to project,
/// from the scrutinee inwards.
pub type Path = Seq<Seq<char>>;

/// The model of a path.
pub open spec fn path_model(path: Seq<Symbol>) -> Path {
    Seq::new(path.len(), |i: int| path[i]@)
}

/// The models of paths.
pub open spec fn paths_model(paths: Seq<Vec<Symbol>>) -> Seq<Path> {
    Seq::new(paths.len(), |i: int| path_model(paths[i]@))
}

/// A decision tree.
#[derive(Debug)]
pub enum Decision<'core> {
    /// No arm is taken: the match does not cover the value.
    Fail,
    /// The arm of that number is taken.
    Leaf(usize),
    /// The arm is taken where its guard holds; else the decision goes on.
    Guard { arm: usize, otherwise: Box<Decision<'core>> },
    /// A test of the boolean at `path`.
    Bool { path: Vec<Symbol<'core>>, on_true: Box<Decision<'core>>, on_false: Box<Decision<'core>> },
    /// A test of the integer at `path`: the case with its value, else the
    /// default. The cases are in ascending order of their keys.
    Int { path: Vec<Symbol<'core>>, cases: Vec<(u32, Decision<'core>)>, default: Box<Decision<'core>> },
}

/// The mathematical model of a decision tree.
pub enum Tree {
    Fail,
    Leaf(nat),
    Guard { arm: nat, otherwise: Box<Tree> },
    Bool { path: Path, on_true: Box<Tree>, on_false: Box<Tree> },
    Int { path: Path, cases: Seq<(u32, Tree)>, default: Box<Tree> },
}

impl<'core> Decision<'core> {
    /// The model of the tree.
    pub open spec fn tree(self) -> Tree
        decreases self,
    {
        match self {
            Decision::Fail => Tree::Fail,
            Decision::Leaf(arm) => Tree::Leaf(arm as nat),
            Decision::Guard { arm, otherwise } => Tree::Guard {
                arm: arm as nat,
                otherwise: Box::new(otherwise.tree()),
            },
            Decision::Bool { path, on_true, on_false } => Tree::Bool {
                path: path_model(path@),
                on_true: Box::new(on_true.tree()),
                on_false: Box::new(on_false.tree()),
            },
            Decision::Int { path, cases, default } => Tree::Int {
                path: path_model(path@),
                cases: Seq::new(
                    cases@.len(),
                    |i: int|
                        if 0 <= i < cases@.len() {
                            (cases@[i].0, cases@[i].1.tree())
                        } else {
                            (0u32, Tree::Fail)
                        },
                ),
                default: Box::new(default.tree()),
            },
        }
    }
}

impl<'core> View for Decision<'core> {
    type V = Tree;

    open spec fn view(&self) -> Tree {
        self.tree()
    }
}

/// The leftmost column from `from` on in which the row has a constructor.
pub open spec fn first_constructor_from(pats: Seq<PatModel>, from: nat) -> Option<nat>
    decreases pats.len() - from,
{
    if from >= pats.len() {
        None
    } else if pats[from as int] !is Wild {
        Some(from)
    } else {
        first_constructor_from(pats, from + 1)
    }
}

/// The labels of the fields of a record pattern.
pub open spec fn field_labels(fields: Seq<(Seq<char>, PatModel)>) -> Seq<Seq<char>> {
    Seq::new(fields.len(), |i: int| fields[i].0)
}

/// The patterns of the fields of a record pattern.
pub open spec fn field_pats(fields: Seq<(Seq<char>, PatModel)>) -> Seq<PatModel> {
    Seq::new(fields.len(), |i: int| fields[i].1)
}

/// A row with the pattern of column `column` replaced by `with`.
pub open spec fn splice(pats: Seq<PatModel>, column: nat, with: Seq<PatModel>) -> Seq<PatModel> {
    pats.take(column as int) + with + pats.skip((column + 1) as int)
}

/// What a row becomes where the record in column `column` is taken apart
/// into fields of the labels `labels`: a record pattern of those labels is
/// replaced by the patterns of its fields, a wildcard by a wildcard for each
/// field. A row that asks for anything else there is no more.
pub open spec fn expand_row(row: RowModel, column: nat, labels: Seq<Seq<char>>) -> Option<RowModel> {
    if column >= row.pats.len() {
        None
    } else {
        match row.pats[column as int] {
            PatModel::Wild => Some(
                RowModel {
                    pats: splice(row.pats, column, Seq::new(labels.len(), |i: int| PatModel::Wild)),
                    guarded: row.guarded,
                    body: row.body,
                },
            ),
            PatModel::Record(fields) => if field_labels(fields) == labels {
                Some(
                    RowModel {
                        pats: splice(row.pats, column, field_pats(fields)),
                        guarded: row.guarded,
                        body: row.body,
                    },
                )
            } else {
                None
            },
            PatModel::Lit(_) => None,
        }
    }
}

/// What a row becomes where the value in column `column` is known to be
/// `lit`: a row that asks for that literal or for nothing there stays, now
/// asking for nothing there. A row that asks for anything else there is no
/// more.
pub open spec fn select_row(row: RowModel, column: nat, lit: Const) -> Option<RowModel> {
    if column >= row.pats.len() {
        None
    } else {
        match row.pats[column as int] {
            PatModel::Wild => Some(row),
            PatModel::Lit(other) => if other == lit {
                Some(
                    RowModel {
                        pats: row.pats.update(column as int, PatModel::Wild),
                        guarded: row.guarded,
                        body: row.body,
                    },
                )
            } else {
                None
            },
            PatModel::Record(_) => None,
        }
    }
}

/// What a row becomes where the value in column `column` is known to be
/// none of the literals of the column: a row that asks for nothing there
/// stays. Any other row is no more.
pub open spec fn default_row(row: RowModel, column: nat) -> Option<RowModel> {
    if column < row.pats.len() && row.pats[column as int] is Wild {
        Some(row)
    } else {
        None
    }
}

/// The rows from `from` on where the record in column `column` is taken
/// apart.
pub open spec fn expand_rows_from(
    rows: Seq<RowModel>,
    column: nat,
    labels: Seq<Seq<char>>,
    from: nat,
) -> Seq<RowModel>
    decreases rows.len() - from,
{
    if from >= rows.len() {
        Seq::empty()
    } else {
        match expand_row(rows[from as int], column, labels) {
            Some(row) => seq![row] + expand_rows_from(rows, column, labels, from + 1),
            None => expand_rows_from(rows, column, labels, from + 1),
        }
    }
}

/// The rows from `from` on where the value in column `column` is known to
/// be `lit`.
pub open spec fn select_rows_from(rows: Seq<RowModel>, column: nat, lit: Const, from: nat) -> Seq<
    RowModel,
>
    decreases rows.len() - from,
{
    if from >= rows.len() {
        Seq::empty()
    } else {
        match select_row(rows[from as int], column, lit) {
            Some(row) => seq![row] + select_rows_from(rows, column, lit, from + 1),
            None => select_rows_from(rows, column, lit, from + 1),
        }
    }
}

/// The rows from `from` on where the value in column `column` is known to
/// be none of the literals of the column.
pub open spec fn default_rows_from(rows: Seq<RowModel>, column: nat, from: nat) -> Seq<RowModel>
    decreases rows.len() - from,
{
    if from >= rows.len() {
        Seq::empty()
    } else {
        match default_row(rows[from as int], column) {
            Some(row) => seq![row] + default_rows_from(rows, column, from + 1),
            None => default_rows_from(rows, column, from + 1),
        }
    }
}

/// The rows where the record in column `column` is taken apart.
pub open spec fn expand_rows(rows: Seq<RowModel>, column: nat, labels: Seq<Seq<char>>) -> Seq<
    RowModel,
> {
    expand_rows_from(rows, column, labels, 0)
}

/// The rows where the value in column `column` is known to be `lit`.
pub open spec fn select_rows(rows: Seq<RowModel>, column: nat, lit: Const) -> Seq<RowModel> {
    select_rows_from(rows, column, lit, 0)
}

/// The rows where the value in column `column` is known to be none of the
/// literals of the column.
pub open spec fn default_rows(rows: Seq<RowModel>, column: nat) -> Seq<RowModel> {
    default_rows_from(rows, column, 0)
}

/// The columns where the record in column `column` is taken apart: in its
/// place, one column for each field.
pub open spec fn expand_paths(paths: Seq<Path>, column: nat, labels: Seq<Seq<char>>) -> Seq<Path> {
    paths.take(column as int) + Seq::new(
        labels.len(),
        |i: int| paths[column as int].push(labels[i]),
    ) + paths.skip((column + 1) as int)
}

/// Whether row `row` asks for the integer `key` in column `column`.
pub open spec fn asks_for(rows: Seq<RowModel>, column: nat, row: int, key: u32) -> bool {
    &&& 0 <= row < rows.len()
    &&& column < rows[row].pats.len()
    &&& rows[row].pats[column as int] == PatModel::Lit(Const::Int(key))
}

/// Whether `keys` are the integer literals of column `column`, each once,
/// in ascending order.
pub open spec fn is_keys(keys: Seq<u32>, rows: Seq<RowModel>, column: nat) -> bool {
    &&& strictly_ascending(keys)
    &&& forall|key: u32|
        keys.contains(key) <==> exists|row: int| #[trigger] asks_for(rows, column, row, key)
}

/// The integer literals of column `column`, each once, in ascending order.
pub open spec fn column_keys(rows: Seq<RowModel>, column: nat) -> Seq<u32> {
    choose|keys: Seq<u32>| is_keys(keys, rows, column)
}

/// The decision tree of the rows over the columns; `None` where the
/// compilation needs more than `fuel` nested steps.
pub open spec fn compile_spec(rows: Seq<RowModel>, paths: Seq<Path>, fuel: nat) -> Option<Tree>
    decreases fuel, 0nat,
{
    if fuel == 0 {
        None
    } else if rows.len() == 0 {
        Some(Tree::Fail)
    } else {
        let fuel = (fuel - 1) as nat;
        let row = rows[0];
        match first_constructor_from(row.pats, 0) {
            None => if row.guarded {
                match compile_spec(rows.drop_first(), paths, fuel) {
                    Some(otherwise) => Some(
                        Tree::Guard { arm: row.body, otherwise: Box::new(otherwise) },
                    ),
                    None => None,
                }
            } else {
                Some(Tree::Leaf(row.body))
            },
            Some(column) => if column >= paths.len() {
                Some(Tree::Fail)
            } else {
                match row.pats[column as int] {
                    PatModel::Wild => Some(Tree::Fail),
                    PatModel::Record(fields) => compile_spec(
                        expand_rows(rows, column, field_labels(fields)),
                        expand_paths(paths, column, field_labels(fields)),
                        fuel,
                    ),
                    PatModel::Lit(Const::Bool(_)) => match compile_spec(
                        select_rows(rows, column, Const::Bool(true)),
                        paths,
                        fuel,
                    ) {
                        Some(on_true) => match compile_spec(
                            select_rows(rows, column, Const::Bool(false)),
                            paths,
                            fuel,
                        ) {
                            Some(on_false) => Some(
                                Tree::Bool {
                                    path: paths[column as int],
                                    on_true: Box::new(on_true),
                                    on_false: Box::new(on_false),
                                },
                            ),
                            None => None,
                        },
                        None => None,
                    },
                    PatModel::Lit(Const::Int(_)) => match compile_cases_spec(
                        rows,
                        paths,
                        column,
                        column_keys(rows, column),
                        0,
                        fuel,
                    ) {
                        Some(cases) => match compile_spec(default_rows(rows, column), paths, fuel) {
                            Some(default) => Some(
                                Tree::Int {
                                    path: paths[column as int],
                                    cases,
                                    default: Box::new(default),
                                },
                            ),
                            None => None,
                        },
                        None => None,
                    },
                }
            },
        }
    }
}

/// The cases of a test of an integer, for the keys from `from` on.
pub open spec fn compile_cases_spec(
    rows: Seq<RowModel>,
    paths: Seq<Path>,
    column: nat,
    keys: Seq<u32>,
    from: nat,
    fuel: nat,
) -> Option<Seq<(u32, Tree)>>
    decreases fuel, keys.len() - from + 1,
{
    if from >= keys.len() {
        Some(Seq::empty())
    } else {
        match compile_spec(select_rows(rows, column, Const::Int(keys[from as int])), paths, fuel) {
            Some(tree) => match compile_cases_spec(rows, paths, column, keys, from + 1, fuel) {
                Some(rest) => Some(seq![(keys[from as int], tree)] + rest),
                None => None,
            },
            None => None,
        }
    }
}

/// Sequences in ascending order with the same elements are the same.
pub proof fn lemma_ascending_unique(a: Seq<u32>, b: Seq<u32>)
    requires
        strictly_ascending(a),
        strictly_ascending(b),
        forall|x: u32| a.contains(x) <==> b.contains(x),
    ensures
        a == b,
    decreases a.len(),
{
    if a.len() == 0 {
        if b.len() > 0 {
            assert(b.contains(b[0]));
        }
        assert(a =~= b);
    } else if b.len() == 0 {
        assert(a.contains(a[0]));
    } else {
        // The first elements are the least, so they are the same.
        assert(a.contains(a[0]));
        assert(b.contains(b[0]));
        let i = choose|i: int| 0 <= i < b.len() && b[i] == a[0];
        let j = choose|j: int| 0 <= j < a.len() && a[j] == b[0];
        assert(a[0] == b[0]);
        let a1 = a.drop_first();
        let b1 = b.drop_first();
        assert forall|x: u32| a1.contains(x) <==> b1.contains(x) by {
            if a1.contains(x) {
                let k = choose|k: int| 0 <= k < a1.len() && a1[k] == x;
                assert(a[k + 1] == x);
                assert(a.contains(x));
                let m = choose|m: int| 0 <= m < b.len() && b[m] == x;
                assert(m != 0);
                assert(b1[m - 1] == x);
            }
            if b1.contains(x) {
                let k = choose|k: int| 0 <= k < b1.len() && b1[k] == x;
                assert(b[k + 1] == x);
                assert(b.contains(x));
                let m = choose|m: int| 0 <= m < a.len() && a[m] == x;
                assert(m != 0);
                assert(a1[m - 1] == x);
            }
        }
        lemma_ascending_unique(a1, b1);
        assert(a =~= seq![a[0]] + a1);
        assert(b =~= seq![b[0]] + b1);
    }
}

/// The keys of a column are what any sequence that is its keys is.
pub proof fn lemma_column_keys(keys: Seq<u32>, rows: Seq<RowModel>, column: nat)
    requires
        is_keys(keys, rows, column),
    ensures
        column_keys(rows, column) == keys,
{
    let chosen = column_keys(rows, column);
    assert(is_keys(chosen, rows, column));
    assert forall|x: u32| chosen.contains(x) <==> keys.contains(x) by {}
    lemma_ascending_unique(chosen, keys);
}

/// Whether the tree `r`, if any, is a tree of model `t`, if any.
pub open spec fn is_tree(r: Option<Decision>, t: Option<Tree>) -> bool {
    match (r, t) {
        (Some(d), Some(t)) => d@ == t,
        (None, None) => true,
        _ => false,
    }
}

/// The models of the cases of a test of an integer.
pub open spec fn cases_view(cases: Seq<(u32, Decision)>) -> Seq<(u32, Tree)> {
    Seq::new(cases.len(), |i: int| (cases[i].0, cases[i].1@))
}

/// The leftmost column in which the row has a constructor.
pub fn first_constructor(row: &PatRow) -> (r: Option<usize>)
    ensures
        match r {
            Some(column) => first_constructor_from(row_model(*row).pats, 0) == Some(column as nat),
            None => first_constructor_from(row_model(*row).pats, 0) is None,
        },
{
    let mut i: usize = 0;
    let ghost pats = row_model(*row).pats;
    while i < row.pats.len()
        invariant
            i <= row.pats@.len(),
            pats == row_model(*row).pats,
            first_constructor_from(pats, i as nat) == first_constructor_from(pats, 0),
        decreases row.pats@.len() - i,
    {
        match row.pats[i] {
            Pat::Error | Pat::Underscore | Pat::Ident(_) => {},
            _ => {
                return Some(i);
            },
        }
        i += 1;
    }
    None
}

/// A copy of a path.
fn copy_path<'core>(path: &Vec<Symbol<'core>>) -> (r: Vec<Symbol<'core>>)
    ensures
        r@ == path@,
{
    let mut out: Vec<Symbol<'core>> = Vec::new();
    let mut i: usize = 0;
    while i < path.len()
        invariant
            i <= path@.len(),
            out@ == path@.take(i as int),
        decreases path@.len() - i,
    {
        out.push(path[i]);
        assert(out@ =~= path@.take(i + 1));
        i += 1;
    }
    assert(path@.take(path@.len() as int) =~= path@);
    out
}

/// Whether the labels of a record pattern are those of `fields`, in order.
fn same_labels(fields: &Vec<(Symbol, Pat)>, labels: &Vec<(Symbol, Pat)>) -> (r: bool)
    ensures
        r == (field_labels(pat_model(Pat::RecordLit(fields))->Record_0) == field_labels(
            pat_model(Pat::RecordLit(labels))->Record_0,
        )),
{
    let ghost a = field_labels(pat_model(Pat::RecordLit(fields))->Record_0);
    let ghost b = field_labels(pat_model(Pat::RecordLit(labels))->Record_0);
    if fields.len() != labels.len() {
        assert(a.len() != b.len());
        return false;
    }
    let mut i: usize = 0;
    while i < fields.len()
        invariant
            i <= fields@.len(),
            fields@.len() == labels@.len(),
            a == field_labels(pat_model(Pat::RecordLit(fields))->Record_0),
            b == field_labels(pat_model(Pat::RecordLit(labels))->Record_0),
            forall|j: int| 0 <= j < i ==> a[j] == b[j],
        decreases fields@.len() - i,
    {
        assert(a[i as int] == fields@[i as int].0@);
        assert(b[i as int] == labels@[i as int].0@);
        if fields[i].0 != labels[i].0 {
            return false;
        }
        i += 1;
    }
    assert(a =~= b);
    true
}

/// The rows where the record in column `column` is taken apart into the
/// fields of `fields`.
pub fn expand_rows_exec<'core>(
    rows: &Vec<PatRow<'core>>,
    column: usize,
    fields: &Vec<(Symbol<'core>, Pat<'core>)>,
) -> (r: Vec<PatRow<'core>>)
    ensures
        rows_model(r@) == expand_rows(
            rows_model(rows@),
            column as nat,
            field_labels(pat_model(Pat::RecordLit(fields))->Record_0),
        ),
{
    let ghost all = rows_model(rows@);
    let ghost labels = field_labels(pat_model(Pat::RecordLit(fields))->Record_0);
    let mut out: Vec<PatRow<'core>> = Vec::new();
    let mut i: usize = 0;
    assert(rows_model(out@) =~= Seq::empty());
    while i < rows.len()
        invariant
            i <= rows@.len(),
            all == rows_model(rows@),
            labels == field_labels(pat_model(Pat::RecordLit(fields))->Record_0),
            rows_model(out@) + expand_rows_from(all, column as nat, labels, i as nat)
                == expand_rows_from(all, column as nat, labels, 0),
        decreases rows@.len() - i,
    {
        let row = &rows[i];
        let ghost before = rows_model(out@);
        let ghost model = all[i as int];
        assert(model == row_model(*row));
        if column < row.pats.len() {
            let with: Option<Vec<Pat<'core>>> = match row.pats[column] {
                Pat::Error | Pat::Underscore | Pat::Ident(_) => {
                    let mut with: Vec<Pat<'core>> = Vec::new();
                    let mut k: usize = 0;
                    while k < fields.len()
                        invariant
                            k <= fields@.len(),
                            with@.len() == k,
                            forall|j: int| 0 <= j < k ==> pat_model(#[trigger] with@[j]) is Wild,
                        decreases fields@.len() - k,
                    {
                        with.push(Pat::Underscore);
                        k += 1;
                    }
                    Some(with)
                },
                Pat::RecordLit(subs) => {
                    if same_labels(subs, fields) {
                        let mut with: Vec<Pat<'core>> = Vec::new();
                        let mut k: usize = 0;
                        while k < subs.len()
                            invariant
                                k <= subs@.len(),
                                with@.len() == k,
                                forall|j: int| 0 <= j < k ==> #[trigger] with@[j] == subs@[j].1,
                            decreases subs@.len() - k,
                        {
                            with.push(subs[k].1);
                            k += 1;
                        }
                        Some(with)
                    } else {
                        None
                    }
                },
                Pat::Lit(_) => None,
            };
            match with {
                Some(with) => {
                    let mut pats: Vec<Pat<'core>> = Vec::new();
                    let mut k: usize = 0;
                    while k < column
                        invariant
                            k <= column,
                            column < row.pats@.len(),
                            pats@ == row.pats@.take(k as int),
                        decreases column - k,
                    {
                        pats.push(row.pats[k]);
                        assert(pats@ =~= row.pats@.take(k + 1));
                        k += 1;
                    }
                    let mut k: usize = 0;
                    while k < with.len()
                        invariant
                            k <= with@.len(),
                            pats@ == row.pats@.take(column as int) + with@.take(k as int),
                        decreases with@.len() - k,
                    {
                        pats.push(with[k]);
                        assert(pats@ =~= row.pats@.take(column as int) + with@.take(k + 1));
                        k += 1;
                    }
                    let mut k: usize = column + 1;
                    while k < row.pats.len()
                        invariant
                            column < k <= row.pats@.len(),
                            pats@ == row.pats@.take(column as int) + with@ + row.pats@.subrange(
                                column + 1,
                                k as int,
                            ),
                        decreases row.pats@.len() - k,
                    {
                        pats.push(row.pats[k]);
                        assert(pats@ =~= row.pats@.take(column as int) + with@
                            + row.pats@.subrange(column + 1, k + 1));
                        k += 1;
                    }
                    proof {
                        assert(with@.take(with@.len() as int) =~= with@);
                    }
                    let new_row = PatRow { pats, guard: row.guard, body: row.body };
                    proof {
                        let expected = expand_row(model, column as nat, labels)->0;
                        assert(row_model(new_row).pats =~= expected.pats) by {
                            assert(row.pats@.subrange(column + 1, row.pats@.len() as int)
                                =~= row.pats@.skip(column + 1));
                        }
                    }
                    out.push(new_row);
                    assert(rows_model(out@) =~= before.push(row_model(new_row)));
                },
                None => {},
            }
        }
        i += 1;
    }
    out
}

/// The rows where the value in column `column` is known to be `lit`.
pub fn select_rows_exec<'core>(rows: &Vec<PatRow<'core>>, column: usize, lit: Const) -> (r: Vec<
    PatRow<'core>,
>)
    ensures
        rows_model(r@) == select_rows(rows_model(rows@), column as nat, lit),
{
    let ghost all = rows_model(rows@);
    let mut out: Vec<PatRow<'core>> = Vec::new();
    let mut i: usize = 0;
    assert(rows_model(out@) =~= Seq::empty());
    while i < rows.len()
        invariant
            i <= rows@.len(),
            all == rows_model(rows@),
            rows_model(out@) + select_rows_from(all, column as nat, lit, i as nat)
                == select_rows_from(all, column as nat, lit, 0),
        decreases rows@.len() - i,
    {
        let row = &rows[i];
        let ghost before = rows_model(out@);
        let ghost model = all[i as int];
        assert(model == row_model(*row));
        if column < row.pats.len() {
            let keep = match row.pats[column] {
                Pat::Error | Pat::Underscore | Pat::Ident(_) => true,
                Pat::Lit(other) => other == lit,
                Pat::RecordLit(_) => false,
            };
            if keep {
                let mut pats: Vec<Pat<'core>> = Vec::new();
                let mut k: usize = 0;
                while k < row.pats.len()
                    invariant
                        k <= row.pats@.len(),
                        column < row.pats@.len(),
                        pats@.len() == k,
                        forall|j: int|
                            0 <= j < k ==> #[trigger] pats@[j] == (if j == column {
                                Pat::Underscore
                            } else {
                                row.pats@[j]
                            }),
                    decreases row.pats@.len() - k,
                {
                    if k == column {
                        pats.push(Pat::Underscore);
                    } else {
                        pats.push(row.pats[k]);
                    }
                    k += 1;
                }
                let new_row = PatRow { pats, guard: row.guard, body: row.body };
                proof {
                    let expected = select_row(model, column as nat, lit)->0;
                    assert(row_model(new_row).pats =~= expected.pats);
                }
                out.push(new_row);
                assert(rows_model(out@) =~= before.push(row_model(new_row)));
            }
        }
        i += 1;
    }
    out
}

/// The rows where the value in column `column` is known to be none of the
/// literals of the column.
pub fn default_rows_exec<'core>(rows: &Vec<PatRow<'core>>, column: usize) -> (r: Vec<PatRow<'core>>)
    ensures
        rows_model(r@) == default_rows(rows_model(rows@), column as nat),
{
    let ghost all = rows_model(rows@);
    let mut out: Vec<PatRow<'core>> = Vec::new();
    let mut i: usize = 0;
    assert(rows_model(out@) =~= Seq::empty());
    while i < rows.len()
        invariant
            i <= rows@.len(),
            all == rows_model(rows@),
            rows_model(out@) + default_rows_from(all, column as nat, i as nat)
                == default_rows_from(all, column as nat, 0),
        decreases rows@.len() - i,
    {
        let row = &rows[i];
        let ghost before = rows_model(out@);
        let ghost model = all[i as int];
        assert(model == row_model(*row));
        if column < row.pats.len() {
            let keep = match row.pats[column] {
                Pat::Error | Pat::Underscore | Pat::Ident(_) => true,
                _ => false,
            };
            if keep {
                let mut pats: Vec<Pat<'core>> = Vec::new();
                let mut k: usize = 0;
                while k < row.pats.len()
                    invariant
                        k <= row.pats@.len(),
                        pats@ == row.pats@.take(k as int),
                    decreases row.pats@.len() - k,
                {
                    pats.push(row.pats[k]);
                    assert(pats@ =~= row.pats@.take(k + 1));
                    k += 1;
                }
                assert(row.pats@.take(row.pats@.len() as int) =~= row.pats@);
                let new_row = PatRow { pats, guard: row.guard, body: row.body };
                proof {
                    assert(row_model(new_row).pats =~= model.pats);
                }
                out.push(new_row);
                assert(rows_model(out@) =~= before.push(row_model(new_row)));
            }
        }
        i += 1;
    }
    out
}

/// The integer literals of column `column`, each once, in ascending order.
#[verifier::loop_isolation(false)]
pub fn collect_keys(rows: &Vec<PatRow>, column: usize) -> (r: Vec<u32>)
    ensures
        is_keys(r@, rows_model(rows@), column as nat),
        r@ == column_keys(rows_model(rows@), column as nat),
{
    let ghost all = rows_model(rows@);
    let mut keys = IntKeys::new();
    let mut i: usize = 0;
    assert forall|key: u32| !ints_of(keys).contains(key) by {}
    while i < rows.len()
        invariant
            i <= rows@.len(),
            strictly_ascending(ints_of(keys)),
            forall|key: u32|
                ints_of(keys).contains(key) <==> exists|row: int|
                    0 <= row < i && #[trigger] asks_for(all, column as nat, row, key),
        decreases rows@.len() - i,
    {
        let row = &rows[i];
        assert(all[i as int] == row_model(*row));
        let ghost before = ints_of(keys);
        let asked = if column < row.pats.len() {
            match row.pats[column] {
                Pat::Lit(Const::Int(key)) => Some(key),
                _ => None,
            }
        } else {
            None
        };
        match asked {
            Some(key) => {
                assert(asks_for(all, column as nat, i as int, key));
                match keys.binary_search(key) {
                    Ok(_) => {
                        assert(before.contains(key));
                    },
                    Err(at) => {
                        proof {
                            lemma_insert_ascending(before, at as int, key);
                        }
                        keys.insert(at, key);
                    },
                }
                proof {
                    let after = ints_of(keys);
                    assert(forall|x: u32| after.contains(x) <==> (before.contains(x) || x == key));
                    assert forall|x: u32| after.contains(x) <==> exists|row: int|
                        0 <= row < i + 1 && #[trigger] asks_for(all, column as nat, row, x) by {
                        if after.contains(x) {
                            if before.contains(x) {
                                let row = choose|row: int|
                                    0 <= row < i && #[trigger] asks_for(all, column as nat, row, x);
                                assert(0 <= row < i + 1 && asks_for(all, column as nat, row, x));
                            } else {
                                assert(x == key);
                                assert(0 <= i < i + 1 && asks_for(all, column as nat, i as int, x));
                            }
                        }
                        if exists|row: int|
                            0 <= row < i + 1 && #[trigger] asks_for(all, column as nat, row, x) {
                            let row = choose|row: int|
                                0 <= row < i + 1 && #[trigger] asks_for(all, column as nat, row, x);
                            if row < i {
                                assert(0 <= row < i && asks_for(all, column as nat, row, x));
                                assert(before.contains(x));
                            } else {
                                assert(x == key);
                            }
                        }
                    }
                }
            },
            None => {
                proof {
                    assert forall|x: u32| before.contains(x) <==> exists|row: int|
                        0 <= row < i + 1 && #[trigger] asks_for(all, column as nat, row, x) by {
                        if before.contains(x) {
                            let row = choose|row: int|
                                0 <= row < i && #[trigger] asks_for(all, column as nat, row, x);
                            assert(0 <= row < i + 1 && asks_for(all, column as nat, row, x));
                        }
                        if exists|row: int|
                            0 <= row < i + 1 && #[trigger] asks_for(all, column as nat, row, x) {
                            let row = choose|row: int|
                                0 <= row < i + 1 && #[trigger] asks_for(all, column as nat, row, x);
                            assert(row != i);
                        }
                    }
                }
            },
        }
        i += 1;
    }
    let r = keys.to_vec();
    proof {
        assert forall|x: u32| r@.contains(x) <==> exists|row: int| #[trigger]
            asks_for(all, column as nat, row, x) by {
            if r@.contains(x) {
                let row = choose|row: int|
                    0 <= row < rows@.len() && #[trigger] asks_for(all, column as nat, row, x);
                assert(asks_for(all, column as nat, row, x));
            }
        }
        lemma_column_keys(r@, all, column as nat);
    }
    r
}

/// The columns where the record in column `column` is taken apart into the
/// fields of `fields`.
pub fn expand_paths_exec<'core>(
    paths: &Vec<Vec<Symbol<'core>>>,
    column: usize,
    fields: &Vec<(Symbol<'core>, Pat<'core>)>,
) -> (r: Vec<Vec<Symbol<'core>>>)
    requires
        column < paths@.len(),
    ensures
        paths_model(r@) == expand_paths(
            paths_model(paths@),
            column as nat,
            field_labels(pat_model(Pat::RecordLit(fields))->Record_0),
        ),
{
    let ghost all = paths_model(paths@);
    let ghost labels = field_labels(pat_model(Pat::RecordLit(fields))->Record_0);
    let total = paths.len();
    let mut out: Vec<Vec<Symbol<'core>>> = Vec::new();
    let mut k: usize = 0;
    assert(paths_model(out@) =~= all.take(0));
    while k < column
        invariant
            k <= column,
            column < paths@.len(),
            all == paths_model(paths@),
            paths_model(out@) == all.take(k as int),
        decreases column - k,
    {
        let ghost before = paths_model(out@);
        let path = copy_path(&paths[k]);
        out.push(path);
        assert(paths_model(out@) =~= before.push(all[k as int]));
        assert(paths_model(out@) =~= all.take(k + 1));
        k += 1;
    }
    let mut k: usize = 0;
    while k < fields.len()
        invariant
            k <= fields@.len(),
            column < paths@.len(),
            all == paths_model(paths@),
            labels == field_labels(pat_model(Pat::RecordLit(fields))->Record_0),
            paths_model(out@) == all.take(column as int) + Seq::new(
                k as nat,
                |i: int| all[column as int].push(labels[i]),
            ),
        decreases fields@.len() - k,
    {
        let ghost before = paths_model(out@);
        let mut path = copy_path(&paths[column]);
        path.push(fields[k].0);
        assert(labels[k as int] == fields@[k as int].0@);
        assert(path_model(path@) =~= all[column as int].push(labels[k as int]));
        out.push(path);
        assert(paths_model(out@) =~= before.push(all[column as int].push(labels[k as int])));
        assert(paths_model(out@) =~= all.take(column as int) + Seq::new(
            (k + 1) as nat,
            |i: int| all[column as int].push(labels[i]),
        ));
        k += 1;
    }
    let mut k: usize = column + 1;
    let ghost middle = Seq::new(labels.len(), |i: int| all[column as int].push(labels[i]));
    while k < total
        invariant
            column < k <= paths@.len(),
            total == paths@.len(),
            all == paths_model(paths@),
            middle == Seq::new(labels.len(), |i: int| all[column as int].push(labels[i])),
            paths_model(out@) == all.take(column as int) + middle + all.subrange(
                column + 1,
                k as int,
            ),
        decreases paths@.len() - k,
    {
        let ghost before = paths_model(out@);
        let path = copy_path(&paths[k]);
        out.push(path);
        assert(paths_model(out@) =~= before.push(all[k as int]));
        assert(paths_model(out@) =~= all.take(column as int) + middle + all.subrange(
            column + 1,
            k + 1,
        ));
        k += 1;
    }
    assert(all.subrange(column + 1, all.len() as int) =~= all.skip(column + 1));
    out
}

/// The rows but the first.
fn rest_rows<'core>(rows: &Vec<PatRow<'core>>) -> (r: Vec<PatRow<'core>>)
    requires
        rows@.len() > 0,
    ensures
        rows_model(r@) == rows_model(rows@).drop_first(),
{
    let mut out: Vec<PatRow<'core>> = Vec::new();
    let mut i: usize = 1;
    assert(rows_model(out@) =~= rows_model(rows@).subrange(1, 1));
    while i < rows.len()
        invariant
            1 <= i <= rows@.len(),
            rows_model(out@) == rows_model(rows@).subrange(1, i as int),
        decreases rows@.len() - i,
    {
        let row = &rows[i];
        let ghost before = rows_model(out@);
        let mut pats: Vec<Pat<'core>> = Vec::new();
        let mut k: usize = 0;
        while k < row.pats.len()
            invariant
                k <= row.pats@.len(),
                pats@ == row.pats@.take(k as int),
            decreases row.pats@.len() - k,
        {
            pats.push(row.pats[k]);
            assert(pats@ =~= row.pats@.take(k + 1));
            k += 1;
        }
        assert(row.pats@.take(row.pats@.len() as int) =~= row.pats@);
        let copy = PatRow { pats, guard: row.guard, body: row.body };
        assert(row_model(copy).pats =~= row_model(*row).pats);
        out.push(copy);
        assert(rows_model(out@) =~= before.push(rows_model(rows@)[i as int]));
        assert(rows_model(out@) =~= rows_model(rows@).subrange(1, i + 1));
        i += 1;
    }
    assert(rows_model(rows@).subrange(1, rows@.len() as int) =~= rows_model(rows@).drop_first());
    out
}

/// The decision tree of the rows over the columns; `None` where the
/// compilation needs more than `fuel` nested steps.
pub fn compile<'core>(rows: &Vec<PatRow<'core>>, paths: &Vec<Vec<Symbol<'core>>>, fuel: usize) -> (r:
    Option<Decision<'core>>)
    ensures
        is_tree(r, compile_spec(rows_model(rows@), paths_model(paths@), fuel as nat)),
    decreases fuel, 0nat,
{
    if fuel == 0 {
        return None;
    }
    if rows.len() == 0 {
        return Some(Decision::Fail);
    }
    let fuel = fuel - 1;
    let row = &rows[0];
    assert(rows_model(rows@)[0] == row_model(*row));
    let column = match first_constructor(row) {
        Some(column) => column,
        None => {
            if row.guard.is_some() {
                let rest = rest_rows(rows);
                return match compile(&rest, paths, fuel) {
                    Some(otherwise) => Some(
                        Decision::Guard { arm: row.body, otherwise: Box::new(otherwise) },
                    ),
                    None => None,
                };
            } else {
                return Some(Decision::Leaf(row.body));
            }
        },
    };
    if column >= paths.len() {
        return Some(Decision::Fail);
    }
    proof {
        lemma_first_constructor_bound(row_model(*row).pats, 0);
    }
    assert(paths_model(paths@)[column as int] == path_model(paths@[column as int]@));
    match row.pats[column] {
        Pat::Error | Pat::Underscore | Pat::Ident(_) => Some(Decision::Fail),
        Pat::RecordLit(fields) => {
            let rows = expand_rows_exec(rows, column, fields);
            let paths = expand_paths_exec(paths, column, fields);
            compile(&rows, &paths, fuel)
        },
        Pat::Lit(Const::Bool(_)) => {
            let on_true = match compile(&select_rows_exec(rows, column, Const::Bool(true)), paths, fuel) {
                Some(tree) => tree,
                None => {
                    return None;
                },
            };
            let on_false = match compile(
                &select_rows_exec(rows, column, Const::Bool(false)),
                paths,
                fuel,
            ) {
                Some(tree) => tree,
                None => {
                    return None;
                },
            };
            Some(
                Decision::Bool {
                    path: copy_path(&paths[column]),
                    on_true: Box::new(on_true),
                    on_false: Box::new(on_false),
                },
            )
        },
        Pat::Lit(Const::Int(_)) => {
            let keys = collect_keys(rows, column);
            let cases = match compile_cases(rows, paths, column, &keys, fuel) {
                Some(cases) => cases,
                None => {
                    return None;
                },
            };
            let default = match compile(&default_rows_exec(rows, column), paths, fuel) {
                Some(tree) => tree,
                None => {
                    return None;
                },
            };
            let tree = Decision::Int {
                path: copy_path(&paths[column]),
                cases,
                default: Box::new(default),
            };
            assert(tree@->cases =~= cases_view(cases@));
            Some(tree)
        },
    }
}

/// The first constructor of a row is in the row.
pub proof fn lemma_first_constructor_bound(pats: Seq<PatModel>, from: nat)
    ensures
        first_constructor_from(pats, from) matches Some(column) ==> from <= column < pats.len()
            && pats[column as int] !is Wild,
    decreases pats.len() - from,
{
    if from < pats.len() && pats[from as int] is Wild {
        lemma_first_constructor_bound(pats, from + 1);
    }
}

/// The cases of a test of the integer in column `column`, for the keys
/// `keys`.
#[verifier::loop_isolation(false)]
fn compile_cases<'core>(
    rows: &Vec<PatRow<'core>>,
    paths: &Vec<Vec<Symbol<'core>>>,
    column: usize,
    keys: &Vec<u32>,
    fuel: usize,
) -> (r: Option<Vec<(u32, Decision<'core>)>>)
    ensures
        match compile_cases_spec(
            rows_model(rows@),
            paths_model(paths@),
            column as nat,
            keys@,
            0,
            fuel as nat,
        ) {
            Some(cases) => r is Some && cases_view(r->0@) == cases,
            None => r is None,
        },
    decreases fuel, keys@.len() + 1,
{
    // From the last key to the first, so that each case is put in front of
    // those after it.
    let ghost all = rows_model(rows@);
    let ghost cols = paths_model(paths@);
    let mut reversed: Vec<(u32, Decision<'core>)> = Vec::new();
    let mut i: usize = keys.len();
    let mut failed = false;
    while i > 0 && !failed
        invariant
            i <= keys@.len(),
            !failed ==> compile_cases_spec(all, cols, column as nat, keys@, i as nat, fuel as nat)
                == Some(cases_view(reversed@).reverse()),
            failed ==> compile_cases_spec(all, cols, column as nat, keys@, i as nat, fuel as nat)
                is None,
        decreases i + (if failed {
            0nat
        } else {
            1nat
        }),
    {
        let key = keys[i - 1];
        let ghost before = cases_view(reversed@);
        match compile(&select_rows_exec(rows, column, Const::Int(key)), paths, fuel) {
            Some(tree) => {
                reversed.push((key, tree));
                assert(cases_view(reversed@) =~= before.push((key, tree@)));
                assert(cases_view(reversed@).reverse() =~= seq![(key, tree@)] + before.reverse());
                i -= 1;
            },
            None => {
                failed = true;
                i -= 1;
            },
        }
    }
    if failed {
        proof {
            lemma_cases_fail(all, cols, column as nat, keys@, i as nat, fuel as nat);
        }
        return None;
    }
    let mut cases: Vec<(u32, Decision<'core>)> = Vec::new();
    let ghost want = cases_view(reversed@).reverse();
    while reversed.len() > 0
        invariant
            cases_view(cases@) + cases_view(reversed@).reverse() == want,
        decreases reversed@.len(),
    {
        let ghost rest = cases_view(reversed@);
        let ghost done = cases_view(cases@);
        let case = reversed.pop().unwrap();
        cases.push(case);
        assert(cases_view(cases@) =~= done.push(rest.last()));
        assert(cases_view(reversed@) =~= rest.drop_last());
        assert(rest.reverse() =~= seq![rest.last()] + rest.drop_last().reverse());
        assert(cases_view(cases@) + cases_view(reversed@).reverse() =~= want);
    }
    assert(cases_view(reversed@).reverse() =~= Seq::empty());
    assert(cases_view(cases@) =~= want);
    Some(cases)
}

/// Where the cases from some key on cannot be compiled, those from any key
/// before it cannot either.
proof fn lemma_cases_fail(
    rows: Seq<RowModel>,
    paths: Seq<Path>,
    column: nat,
    keys: Seq<u32>,
    from: nat,
    fuel: nat,
)
    requires
        from <= keys.len(),
        compile_cases_spec(rows, paths, column, keys, from, fuel) is None,
    ensures
        compile_cases_spec(rows, paths, column, keys, 0, fuel) is None,
    decreases from,
{
    if from > 0 {
        lemma_cases_fail(rows, paths, column, keys, (from - 1) as nat, fuel);
    }
}

} // verus!
