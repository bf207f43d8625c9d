//! What a match means, and that its decision tree means the same.
//!
//! A match takes the first arm whose pattern the value matches and whose
//! guard, if it has one, holds. The decision tree that the arms compile to
//! takes that arm, for every value of the shape that the patterns ask for.

use super::compile::{
    asks_for, column_keys, compile_cases_spec, compile_spec, default_row,
    default_rows, default_rows_from, expand_paths, expand_row, expand_rows, expand_rows_from,
    field_labels, field_pats, first_constructor_from, is_keys, lemma_ascending_unique,
    lemma_first_constructor_bound, pat_model, rows_model, select_row, select_rows,
    select_rows_from, splice, PatModel, Path, RowModel, Tree,
};
use super::constructors::{
    column_holds, ints_of, is_first_constructor, is_wildcard, lemma_exhaustive_ints_have_no_gap,
    strictly_ascending, Constructors,
};
use super::matrix::PatMatrix;
use crate::syntax::{Const, Pat};
use vstd::prelude::*;

verus! {

/// A value that patterns look at: a literal, or a record of such values.
pub enum Scrutinee {
    Bool(bool),
    Int(u32),
    Record(Seq<(Seq<char>, Scrutinee)>),
}

/// The value of a literal.
pub open spec fn lit_value(lit: Const) -> Scrutinee {
    match lit {
        Const::Bool(b) => Scrutinee::Bool(b),
        Const::Int(n) => Scrutinee::Int(n),
    }
}

/// The labels of the fields of a record.
pub open spec fn value_labels(fields: Seq<(Seq<char>, Scrutinee)>) -> Seq<Seq<char>> {
    Seq::new(fields.len(), |i: int| fields[i].0)
}

/// The first field from `from` on that has the label `label`.
pub open spec fn field_from(fields: Seq<(Seq<char>, Scrutinee)>, label: Seq<char>, from: nat) -> Option<
    Scrutinee,
>
    decreases fields.len() - from,
{
    if from >= fields.len() {
        None
    } else if fields[from as int].0 == label {
        Some(fields[from as int].1)
    } else {
        field_from(fields, label, from + 1)
    }
}

/// The field `label` of a value, where the value is a record that has it.
pub open spec fn field(value: Option<Scrutinee>, label: Seq<char>) -> Option<Scrutinee> {
    match value {
        Some(Scrutinee::Record(fields)) => field_from(fields, label, 0),
        _ => None,
    }
}

/// The part of a value at a path: the projection of the labels of the path,
/// from the first to the last.
pub open spec fn part(value: Scrutinee, path: Path) -> Option<Scrutinee>
    decreases path.len(),
{
    if path.len() == 0 {
        Some(value)
    } else {
        field(part(value, path.drop_last()), path.last())
    }
}

/// Whether a value is what a pattern asks for.
pub open spec fn matches(pat: PatModel, value: Option<Scrutinee>) -> bool
    decreases pat,
{
    match pat {
        PatModel::Wild => true,
        PatModel::Lit(lit) => value == Some(lit_value(lit)),
        PatModel::Record(fields) => value matches Some(Scrutinee::Record(_)) && forall|i: int|
            0 <= i < fields.len() ==> matches((#[trigger] fields[i]).1, field(value, fields[i].0)),
    }
}

/// Whether a value has the shape that a pattern asks about: a boolean for a
/// boolean literal, an integer for an integer literal, a record with the
/// same labels, whose fields have the shape that the patterns of the fields
/// ask about, for a record pattern.
pub open spec fn shaped(pat: PatModel, value: Option<Scrutinee>) -> bool
    decreases pat,
{
    match pat {
        PatModel::Wild => true,
        PatModel::Lit(Const::Bool(_)) => value matches Some(Scrutinee::Bool(_)),
        PatModel::Lit(Const::Int(_)) => value matches Some(Scrutinee::Int(_)),
        PatModel::Record(fields) => value matches Some(Scrutinee::Record(values))
            && value_labels(values) == field_labels(fields) && forall|i: int|
            0 <= i < fields.len() ==> shaped((#[trigger] fields[i]).1, field(value, fields[i].0)),
    }
}

/// Whether a value matches a row: each part matches the pattern of its
/// column.
pub open spec fn row_matches(row: RowModel, paths: Seq<Path>, value: Scrutinee) -> bool {
    forall|j: int|
        0 <= j < row.pats.len() ==> matches(#[trigger] row.pats[j], part(value, paths[j]))
}

/// Whether a row takes a value: the value matches it, and its guard, if it
/// has one, holds.
pub open spec fn row_takes(
    row: RowModel,
    paths: Seq<Path>,
    value: Scrutinee,
    guards: spec_fn(nat) -> bool,
) -> bool {
    row_matches(row, paths, value) && (row.guarded ==> guards(row.body))
}

/// The arm of the first row from `from` on that takes the value.
pub open spec fn first_match(
    rows: Seq<RowModel>,
    paths: Seq<Path>,
    value: Scrutinee,
    guards: spec_fn(nat) -> bool,
    from: nat,
) -> Option<nat>
    decreases rows.len() - from,
{
    if from >= rows.len() {
        None
    } else if row_takes(rows[from as int], paths, value, guards) {
        Some(rows[from as int].body)
    } else {
        first_match(rows, paths, value, guards, from + 1)
    }
}

/// The arm that a decision tree takes for a value.
pub open spec fn decide(tree: Tree, value: Scrutinee, guards: spec_fn(nat) -> bool) -> Option<nat>
    decreases tree, 1nat,
{
    match tree {
        Tree::Fail => None,
        Tree::Leaf(arm) => Some(arm),
        Tree::Guard { arm, otherwise } => if guards(arm) {
            Some(arm)
        } else {
            decide(*otherwise, value, guards)
        },
        Tree::Bool { path, on_true, on_false } => match part(value, path) {
            Some(Scrutinee::Bool(true)) => decide(*on_true, value, guards),
            Some(Scrutinee::Bool(false)) => decide(*on_false, value, guards),
            _ => None,
        },
        Tree::Int { path, cases, default } => match part(value, path) {
            Some(Scrutinee::Int(key)) => decide_cases(tree, key, 0, value, guards),
            _ => None,
        },
    }
}

/// The arm that a test of an integer takes for the key `key`: that of the
/// first case from `from` on with that key, else that of the default.
pub open spec fn decide_cases(
    tree: Tree,
    key: u32,
    from: nat,
    value: Scrutinee,
    guards: spec_fn(nat) -> bool,
) -> Option<nat>
    decreases tree, 0nat, (if tree is Int {
        tree->cases.len() - from
    } else {
        0
    }),
{
    match tree {
        Tree::Int { cases, default, .. } => if from >= cases.len() {
            decide(*default, value, guards)
        } else if cases[from as int].0 == key {
            decide(cases[from as int].1, value, guards)
        } else {
            decide_cases(tree, key, from + 1, value, guards)
        },
        _ => None,
    }
}

/// Whether a value has the shape that the rows ask about: every row has a
/// pattern for every column, and the part of the value that a column looks
/// at has the shape that every pattern of the column asks about.
pub open spec fn typed(rows: Seq<RowModel>, paths: Seq<Path>, value: Scrutinee) -> bool {
    forall|i: int|
        0 <= i < rows.len() ==> (#[trigger] rows[i]).pats.len() == paths.len() && forall|j: int|
            0 <= j < paths.len() ==> shaped(#[trigger] rows[i].pats[j], part(value, paths[j]))
}

/// The first match among the rows but the first is the first match from the
/// second row on.
proof fn lemma_first_match_shift(
    rows: Seq<RowModel>,
    paths: Seq<Path>,
    value: Scrutinee,
    guards: spec_fn(nat) -> bool,
    from: nat,
)
    requires
        rows.len() > 0,
    ensures
        first_match(rows.drop_first(), paths, value, guards, from) == first_match(
            rows,
            paths,
            value,
            guards,
            from + 1,
        ),
    decreases rows.len() - from,
{
    if from + 1 < rows.len() {
        assert(rows.drop_first()[from as int] == rows[from as int + 1]);
        lemma_first_match_shift(rows, paths, value, guards, from + 1);
    }
}

/// The first match among a row and rows after it.
proof fn lemma_first_match_cons(
    row: RowModel,
    rest: Seq<RowModel>,
    paths: Seq<Path>,
    value: Scrutinee,
    guards: spec_fn(nat) -> bool,
)
    ensures
        first_match(seq![row] + rest, paths, value, guards, 0) == (if row_takes(
            row,
            paths,
            value,
            guards,
        ) {
            Some(row.body)
        } else {
            first_match(rest, paths, value, guards, 0)
        }),
{
    let rows = seq![row] + rest;
    assert(rows[0] == row);
    assert(rows.drop_first() =~= rest);
    lemma_first_match_shift(rows, paths, value, guards, 0);
}

/// Different literals have different values.
proof fn lemma_lit_value_injective(a: Const, b: Const)
    requires
        lit_value(a) == lit_value(b),
    ensures
        a == b,
{
}

/// Where the value in a column is known to be a literal, the rows that are
/// kept for it take the value as the rows did.
proof fn lemma_select(
    rows: Seq<RowModel>,
    paths: Seq<Path>,
    value: Scrutinee,
    guards: spec_fn(nat) -> bool,
    column: nat,
    lit: Const,
    from: nat,
)
    requires
        column < paths.len(),
        part(value, paths[column as int]) == Some(lit_value(lit)),
        forall|i: int| 0 <= i < rows.len() ==> (#[trigger] rows[i]).pats.len() == paths.len(),
    ensures
        first_match(select_rows_from(rows, column, lit, from), paths, value, guards, 0)
            == first_match(rows, paths, value, guards, from),
    decreases rows.len() - from,
{
    if from < rows.len() {
        let row = rows[from as int];
        lemma_select(rows, paths, value, guards, column, lit, from + 1);
        let rest = select_rows_from(rows, column, lit, from + 1);
        match select_row(row, column, lit) {
            Some(kept) => {
                lemma_first_match_cons(kept, rest, paths, value, guards);
                assert(row_matches(kept, paths, value) == row_matches(row, paths, value)) by {
                    if row_matches(row, paths, value) {
                        assert forall|j: int| 0 <= j < kept.pats.len() implies matches(
                            #[trigger] kept.pats[j],
                            part(value, paths[j]),
                        ) by {
                            assert(matches(row.pats[j], part(value, paths[j])));
                        }
                    }
                    if row_matches(kept, paths, value) {
                        assert forall|j: int| 0 <= j < row.pats.len() implies matches(
                            #[trigger] row.pats[j],
                            part(value, paths[j]),
                        ) by {
                            assert(matches(kept.pats[j], part(value, paths[j])));
                        }
                    }
                }
            },
            None => {
                assert(!matches(row.pats[column as int], part(value, paths[column as int]))) by {
                    match row.pats[column as int] {
                        PatModel::Lit(other) => {
                            if lit_value(other) == lit_value(lit) {
                                lemma_lit_value_injective(other, lit);
                            }
                        },
                        _ => {},
                    }
                }
                assert(!row_matches(row, paths, value));
            },
        }
    }
}

/// Where the integer in a column is known to be none of the literals of the
/// column, the rows that are kept take the value as the rows did.
proof fn lemma_default(
    rows: Seq<RowModel>,
    paths: Seq<Path>,
    value: Scrutinee,
    guards: spec_fn(nat) -> bool,
    column: nat,
    key: u32,
    from: nat,
)
    requires
        column < paths.len(),
        part(value, paths[column as int]) == Some(Scrutinee::Int(key)),
        forall|i: int| 0 <= i < rows.len() ==> (#[trigger] rows[i]).pats.len() == paths.len(),
        forall|i: int| !asks_for(rows, column, i, key),
    ensures
        first_match(default_rows_from(rows, column, from), paths, value, guards, 0)
            == first_match(rows, paths, value, guards, from),
    decreases rows.len() - from,
{
    if from < rows.len() {
        let row = rows[from as int];
        lemma_default(rows, paths, value, guards, column, key, from + 1);
        let rest = default_rows_from(rows, column, from + 1);
        match default_row(row, column) {
            Some(kept) => {
                lemma_first_match_cons(kept, rest, paths, value, guards);
            },
            None => {
                assert(!asks_for(rows, column, from as int, key));
                assert(!matches(row.pats[column as int], part(value, paths[column as int]))) by {
                    match row.pats[column as int] {
                        PatModel::Lit(Const::Int(other)) => {
                            assert(other != key);
                        },
                        _ => {},
                    }
                }
                assert(!row_matches(row, paths, value));
            },
        }
    }
}

/// The part of a value at a path with one more label is the field of that
/// label of the part at the path.
proof fn lemma_part_push(value: Scrutinee, path: Path, label: Seq<char>)
    ensures
        part(value, path.push(label)) == field(part(value, path), label),
{
    assert(path.push(label).drop_last() =~= path);
}

/// Where the value in a column is a record, a row with its record pattern
/// taken apart matches the value as the row did.
proof fn lemma_expand_row(
    row: RowModel,
    paths: Seq<Path>,
    value: Scrutinee,
    column: nat,
    labels: Seq<Seq<char>>,
)
    requires
        column < paths.len(),
        row.pats.len() == paths.len(),
        part(value, paths[column as int]) is Some,
        part(value, paths[column as int])->0 is Record,
        value_labels(part(value, paths[column as int])->0->Record_0) == labels,
        forall|j: int|
            0 <= j < paths.len() ==> shaped(#[trigger] row.pats[j], part(value, paths[j])),
    ensures
        expand_row(row, column, labels) is Some,
        row_matches(expand_row(row, column, labels)->0, expand_paths(paths, column, labels), value)
            == row_matches(row, paths, value),
        expand_row(row, column, labels)->0.pats.len() == expand_paths(paths, column, labels).len(),
        forall|j: int|
            0 <= j < expand_paths(paths, column, labels).len() ==> shaped(
                #[trigger] expand_row(row, column, labels)->0.pats[j],
                part(value, expand_paths(paths, column, labels)[j]),
            ),
{
    let n = labels.len();
    let wide = expand_paths(paths, column, labels);
    let at = part(value, paths[column as int]);
    assert(shaped(row.pats[column as int], at));
    let with = match row.pats[column as int] {
        PatModel::Wild => Seq::new(n, |i: int| PatModel::Wild),
        PatModel::Record(fields) => field_pats(fields),
        PatModel::Lit(_) => Seq::empty(),
    };
    let kept = expand_row(row, column, labels)->0;
    assert(expand_row(row, column, labels) is Some);
    assert(kept.pats == splice(row.pats, column, with));
    assert(with.len() == n);
    assert(wide.len() == paths.len() - 1 + n);
    // The columns before, in and after the place of the record.
    assert forall|j: int| 0 <= j < column implies kept.pats[j] == row.pats[j] && wide[j]
        == paths[j] by {}
    assert forall|j: int| column <= j < column + n implies kept.pats[j] == with[j - column]
        && wide[j] == paths[column as int].push(labels[j - column]) by {}
    assert forall|j: int| column + n <= j < wide.len() implies kept.pats[j] == row.pats[j - n + 1]
        && wide[j] == paths[j - n + 1] by {}
    assert forall|k: int| 0 <= k < n implies part(value, wide[column + k]) == field(
        at,
        labels[k],
    ) by {
        lemma_part_push(value, paths[column as int], labels[k]);
    }
    assert forall|j: int| 0 <= j < wide.len() implies shaped(
        #[trigger] kept.pats[j],
        part(value, wide[j]),
    ) by {
        if j < column {
            assert(shaped(row.pats[j], part(value, paths[j])));
        } else if j < column + n {
            let k = j - column;
            match row.pats[column as int] {
                PatModel::Record(fields) => {
                    assert(fields[k].0 == labels[k]);
                    assert(shaped(fields[k].1, field(at, fields[k].0)));
                },
                _ => {},
            }
        } else {
            assert(shaped(row.pats[j - n + 1], part(value, paths[j - n + 1])));
        }
    }
    if row_matches(row, paths, value) {
        assert forall|j: int| 0 <= j < kept.pats.len() implies matches(
            #[trigger] kept.pats[j],
            part(value, wide[j]),
        ) by {
            if j < column {
                assert(matches(row.pats[j], part(value, paths[j])));
            } else if j < column + n {
                let k = j - column;
                assert(matches(row.pats[column as int], at));
                match row.pats[column as int] {
                    PatModel::Record(fields) => {
                        assert(fields[k].0 == labels[k]);
                        assert(matches(fields[k].1, field(at, fields[k].0)));
                    },
                    _ => {},
                }
            } else {
                assert(matches(row.pats[j - n + 1], part(value, paths[j - n + 1])));
            }
        }
    }
    if row_matches(kept, wide, value) {
        assert forall|j: int| 0 <= j < row.pats.len() implies matches(
            #[trigger] row.pats[j],
            part(value, paths[j]),
        ) by {
            if j < column {
                assert(matches(kept.pats[j], part(value, wide[j])));
            } else if j == column {
                match row.pats[column as int] {
                    PatModel::Record(fields) => {
                        assert forall|k: int| 0 <= k < fields.len() implies matches(
                            (#[trigger] fields[k]).1,
                            field(at, fields[k].0),
                        ) by {
                            assert(fields[k].0 == labels[k]);
                            assert(matches(kept.pats[column + k], part(value, wide[column + k])));
                        }
                    },
                    _ => {},
                }
            } else {
                assert(matches(kept.pats[j + n - 1], part(value, wide[j + n - 1])));
            }
        }
    }
}

/// Where the value in a column is a record, the rows with their record
/// patterns taken apart take the value as the rows did.
proof fn lemma_expand(
    rows: Seq<RowModel>,
    paths: Seq<Path>,
    value: Scrutinee,
    guards: spec_fn(nat) -> bool,
    column: nat,
    labels: Seq<Seq<char>>,
    from: nat,
)
    requires
        typed(rows, paths, value),
        column < paths.len(),
        part(value, paths[column as int]) is Some,
        part(value, paths[column as int])->0 is Record,
        value_labels(part(value, paths[column as int])->0->Record_0) == labels,
    ensures
        first_match(
            expand_rows_from(rows, column, labels, from),
            expand_paths(paths, column, labels),
            value,
            guards,
            0,
        ) == first_match(rows, paths, value, guards, from),
        typed(expand_rows_from(rows, column, labels, from), expand_paths(paths, column, labels), value),
    decreases rows.len() - from,
{
    let wide = expand_paths(paths, column, labels);
    if from < rows.len() {
        let row = rows[from as int];
        lemma_expand(rows, paths, value, guards, column, labels, from + 1);
        let rest = expand_rows_from(rows, column, labels, from + 1);
        lemma_expand_row(row, paths, value, column, labels);
        let kept = expand_row(row, column, labels)->0;
        lemma_first_match_cons(kept, rest, wide, value, guards);
        let all = seq![kept] + rest;
        assert forall|i: int| 0 <= i < all.len() implies (#[trigger] all[i]).pats.len()
            == wide.len() && forall|j: int|
            0 <= j < wide.len() ==> shaped(#[trigger] all[i].pats[j], part(value, wide[j])) by {
            if i > 0 {
                assert(all[i] == rest[i - 1]);
            }
        }
    }
}

/// The rows that are kept for a literal ask about no other shape than the
/// rows did.
proof fn lemma_select_typed(
    rows: Seq<RowModel>,
    paths: Seq<Path>,
    value: Scrutinee,
    column: nat,
    lit: Const,
    from: nat,
)
    requires
        typed(rows, paths, value),
        column < paths.len(),
    ensures
        typed(select_rows_from(rows, column, lit, from), paths, value),
    decreases rows.len() - from,
{
    if from < rows.len() {
        let row = rows[from as int];
        lemma_select_typed(rows, paths, value, column, lit, from + 1);
        let rest = select_rows_from(rows, column, lit, from + 1);
        match select_row(row, column, lit) {
            Some(kept) => {
                let all = seq![kept] + rest;
                assert forall|i: int| 0 <= i < all.len() implies (#[trigger] all[i]).pats.len()
                    == paths.len() && forall|j: int|
                    0 <= j < paths.len() ==> shaped(
                        #[trigger] all[i].pats[j],
                        part(value, paths[j]),
                    ) by {
                    if i > 0 {
                        assert(all[i] == rest[i - 1]);
                    } else {
                        assert forall|j: int| 0 <= j < paths.len() implies shaped(
                            #[trigger] kept.pats[j],
                            part(value, paths[j]),
                        ) by {
                            assert(shaped(row.pats[j], part(value, paths[j])));
                        }
                    }
                }
            },
            None => {},
        }
    }
}

/// The rows that are kept for the default ask about no other shape than the
/// rows did.
proof fn lemma_default_typed(
    rows: Seq<RowModel>,
    paths: Seq<Path>,
    value: Scrutinee,
    column: nat,
    from: nat,
)
    requires
        typed(rows, paths, value),
    ensures
        typed(default_rows_from(rows, column, from), paths, value),
    decreases rows.len() - from,
{
    if from < rows.len() {
        let row = rows[from as int];
        lemma_default_typed(rows, paths, value, column, from + 1);
        let rest = default_rows_from(rows, column, from + 1);
        match default_row(row, column) {
            Some(kept) => {
                let all = seq![kept] + rest;
                assert forall|i: int| 0 <= i < all.len() implies (#[trigger] all[i]).pats.len()
                    == paths.len() && forall|j: int|
                    0 <= j < paths.len() ==> shaped(
                        #[trigger] all[i].pats[j],
                        part(value, paths[j]),
                    ) by {
                    if i > 0 {
                        assert(all[i] == rest[i - 1]);
                    }
                }
            },
            None => {},
        }
    }
}

/// Whether `keys` are the integer literals that the rows before `upto` ask
/// for in a column, each once, in ascending order.
spec fn is_keys_upto(keys: Seq<u32>, rows: Seq<RowModel>, column: nat, upto: nat) -> bool {
    &&& strictly_ascending(keys)
    &&& forall|key: u32|
        keys.contains(key) <==> exists|row: int|
            0 <= row < upto && #[trigger] asks_for(rows, column, row, key)
}

/// A sequence in ascending order with one more element in its place.
spec fn with_key(keys: Seq<u32>, key: u32, from: nat) -> Seq<u32>
    decreases keys.len() - from,
{
    if from >= keys.len() {
        keys.push(key)
    } else if keys[from as int] == key {
        keys
    } else if keys[from as int] > key {
        keys.insert(from as int, key)
    } else {
        with_key(keys, key, from + 1)
    }
}

/// Putting an element in its place keeps the order, and adds that element
/// and no other.
proof fn lemma_with_key(keys: Seq<u32>, key: u32, from: nat)
    requires
        strictly_ascending(keys),
        from <= keys.len(),
        forall|i: int| 0 <= i < from ==> keys[i] < key,
    ensures
        strictly_ascending(with_key(keys, key, from)),
        forall|x: u32| with_key(keys, key, from).contains(x) <==> (keys.contains(x) || x == key),
    decreases keys.len() - from,
{
    if from >= keys.len() {
        let after = keys.push(key);
        assert forall|x: u32| after.contains(x) <==> (keys.contains(x) || x == key) by {
            if after.contains(x) {
                let j = choose|j: int| 0 <= j < after.len() && after[j] == x;
                if j < keys.len() {
                    assert(keys[j] == x);
                }
            }
            if keys.contains(x) {
                let j = choose|j: int| 0 <= j < keys.len() && keys[j] == x;
                assert(after[j] == x);
            }
            if x == key {
                assert(after[keys.len() as int] == x);
            }
        }
    } else if keys[from as int] == key {
        assert(keys.contains(key));
    } else if keys[from as int] > key {
        let after = keys.insert(from as int, key);
        assert(forall|j: int| 0 <= j < from ==> after[j] == keys[j]);
        assert(after[from as int] == key);
        assert(forall|j: int| from < j < after.len() ==> after[j] == keys[j - 1]);
        assert forall|x: u32| after.contains(x) <==> (keys.contains(x) || x == key) by {
            if after.contains(x) {
                let j = choose|j: int| 0 <= j < after.len() && after[j] == x;
                if j < from {
                    assert(keys[j] == x);
                } else if j > from {
                    assert(keys[j - 1] == x);
                }
            }
            if keys.contains(x) {
                let j = choose|j: int| 0 <= j < keys.len() && keys[j] == x;
                if j < from {
                    assert(after[j] == x);
                } else {
                    assert(after[j + 1] == x);
                }
            }
        }
    } else {
        lemma_with_key(keys, key, from + 1);
    }
}

/// Every column has its keys.
proof fn lemma_keys_exist(rows: Seq<RowModel>, column: nat, upto: nat) -> (keys: Seq<u32>)
    requires
        upto <= rows.len(),
    ensures
        is_keys_upto(keys, rows, column, upto),
    decreases upto,
{
    if upto == 0 {
        let keys = Seq::<u32>::empty();
        assert forall|key: u32| keys.contains(key) <==> exists|row: int|
            0 <= row < upto && #[trigger] asks_for(rows, column, row, key) by {}
        keys
    } else {
        let before = lemma_keys_exist(rows, column, (upto - 1) as nat);
        let row = rows[upto - 1];
        if column < row.pats.len() && row.pats[column as int] is Lit
            && row.pats[column as int]->Lit_0 is Int {
            let key = row.pats[column as int]->Lit_0->Int_0;
            let keys = with_key(before, key, 0);
            lemma_with_key(before, key, 0);
            assert(asks_for(rows, column, upto - 1, key));
            assert forall|x: u32| keys.contains(x) <==> exists|row: int|
                0 <= row < upto && #[trigger] asks_for(rows, column, row, x) by {
                if keys.contains(x) {
                    if before.contains(x) {
                        let r = choose|r: int|
                            0 <= r < upto - 1 && #[trigger] asks_for(rows, column, r, x);
                        assert(0 <= r < upto && asks_for(rows, column, r, x));
                    } else {
                        assert(x == key);
                        assert(0 <= upto - 1 < upto && asks_for(rows, column, upto - 1, x));
                    }
                }
                if exists|r: int| 0 <= r < upto && #[trigger] asks_for(rows, column, r, x) {
                    let r = choose|r: int| 0 <= r < upto && #[trigger] asks_for(rows, column, r, x);
                    if r < upto - 1 {
                        assert(0 <= r < upto - 1 && asks_for(rows, column, r, x));
                        assert(before.contains(x));
                    } else {
                        assert(r == upto - 1);
                        assert(x == key);
                    }
                    assert(keys.contains(x));
                }
            }
            keys
        } else {
            assert forall|x: u32| before.contains(x) <==> exists|row: int|
                0 <= row < upto && #[trigger] asks_for(rows, column, row, x) by {
                if before.contains(x) {
                    let r = choose|r: int|
                        0 <= r < upto - 1 && #[trigger] asks_for(rows, column, r, x);
                    assert(0 <= r < upto && asks_for(rows, column, r, x));
                }
                if exists|r: int| 0 <= r < upto && #[trigger] asks_for(rows, column, r, x) {
                    let r = choose|r: int| 0 <= r < upto && #[trigger] asks_for(rows, column, r, x);
                    assert(r != upto - 1);
                }
            }
            before
        }
    }
}

/// The keys of a column are its keys.
pub proof fn lemma_column_keys_are_keys(rows: Seq<RowModel>, column: nat)
    ensures
        is_keys(column_keys(rows, column), rows, column),
{
    let keys = lemma_keys_exist(rows, column, rows.len());
    assert forall|key: u32| keys.contains(key) <==> exists|row: int| #[trigger]
        asks_for(rows, column, row, key) by {
        if keys.contains(key) {
            let r = choose|r: int| 0 <= r < rows.len() && #[trigger] asks_for(rows, column, r, key);
            assert(asks_for(rows, column, r, key));
        }
    }
    assert(is_keys(keys, rows, column));
}

/// The integers that a column of a matrix holds, as
/// [`PatMatrix::column_constructors`] finds them, are the keys of that
/// column of its rows: the integers that the decision tree of the rows
/// tests there, in the same order.
pub proof fn lemma_constructors_are_keys(matrix: PatMatrix, index: nat, found: Constructors)
    requires
        matrix.has_column(index),
        column_holds(matrix.column(index), Some(found)),
        found is Ints,
    ensures
        ints_of(found->Ints_0) == column_keys(rows_model(matrix.rows@), index),
{
    let rows = rows_model(matrix.rows@);
    let column = matrix.column(index);
    let ints = ints_of(found->Ints_0);
    let k = choose|k: int| #[trigger]
        is_first_constructor(column, k) && match column[k] {
            Pat::RecordLit(fields) => found == Constructors::Record(fields),
            Pat::Lit(Const::Bool(b)) => {
                &&& found is Bools
                &&& forall|c: bool|
                    found->Bools_0.has(c) <==> column.contains(Pat::Lit(Const::Bool(c)))
            },
            Pat::Lit(Const::Int(_)) => {
                &&& found is Ints
                &&& strictly_ascending(ints_of(found->Ints_0))
                &&& forall|v: u32|
                    ints_of(found->Ints_0).contains(v) <==> column.contains(
                        Pat::Lit(Const::Int(v)),
                    )
            },
            _ => false,
        };
    assert(column[k] is Lit);
    assert forall|key: u32| ints.contains(key) <==> exists|row: int| #[trigger]
        asks_for(rows, index, row, key) by {
        if ints.contains(key) {
            let i = choose|i: int| 0 <= i < column.len() && column[i] == Pat::Lit(Const::Int(key));
            assert(matrix.rows@[i].pats@[index as int] == Pat::Lit(Const::Int(key)));
            assert(rows[i].pats[index as int] == pat_model(matrix.rows@[i].pats@[index as int]));
            assert(asks_for(rows, index, i, key));
        }
        if exists|row: int| #[trigger] asks_for(rows, index, row, key) {
            let row = choose|row: int| #[trigger] asks_for(rows, index, row, key);
            let pat = matrix.rows@[row].pats@[index as int];
            assert(rows[row].pats[index as int] == pat_model(pat));
            assert(pat == Pat::Lit(Const::Int(key)));
            assert(column[row] == pat);
        }
    }
    assert(is_keys(ints, rows, index));
    lemma_column_keys_are_keys(rows, index);
    lemma_ascending_unique(ints, column_keys(rows, index));
}

/// Where the decision tree of the rows of a matrix tests the integer in
/// column `index`, it has one case for each integer that
/// [`PatMatrix::column_constructors`] finds in the column, in the same
/// order.
pub proof fn lemma_cases_are_constructors(
    matrix: PatMatrix,
    paths: Seq<Path>,
    index: nat,
    found: Constructors,
    fuel: nat,
)
    requires
        matrix.has_column(index),
        column_holds(matrix.column(index), Some(found)),
        found is Ints,
        matrix.rows@.len() > 0,
        first_constructor_from(rows_model(matrix.rows@)[0].pats, 0) == Some(index),
        index < paths.len(),
        compile_spec(rows_model(matrix.rows@), paths, fuel) is Some,
    ensures
        ({
            let tree = compile_spec(rows_model(matrix.rows@), paths, fuel)->0;
            let ints = ints_of(found->Ints_0);
            &&& tree is Int
            &&& tree->cases.len() == ints.len()
            &&& forall|i: int| 0 <= i < ints.len() ==> (#[trigger] tree->cases[i]).0 == ints[i]
        }),
{
    let rows = rows_model(matrix.rows@);
    let column = matrix.column(index);
    lemma_constructors_are_keys(matrix, index, found);
    lemma_first_constructor_bound(rows[0].pats, 0);
    let k = choose|k: int| #[trigger]
        is_first_constructor(column, k) && match column[k] {
            Pat::RecordLit(fields) => found == Constructors::Record(fields),
            Pat::Lit(Const::Bool(b)) => {
                &&& found is Bools
                &&& forall|c: bool|
                    found->Bools_0.has(c) <==> column.contains(Pat::Lit(Const::Bool(c)))
            },
            Pat::Lit(Const::Int(_)) => {
                &&& found is Ints
                &&& strictly_ascending(ints_of(found->Ints_0))
                &&& forall|v: u32|
                    ints_of(found->Ints_0).contains(v) <==> column.contains(
                        Pat::Lit(Const::Int(v)),
                    )
            },
            _ => false,
        };
    assert(rows[0].pats[index as int] == pat_model(column[0]));
    assert(k == 0) by {
        if k > 0 {
            assert(is_wildcard(column[0]));
        }
    }
    assert(rows[0].pats[index as int] is Lit);
    let keys = column_keys(rows, index);
    lemma_cases(rows, paths, index, keys, 0, (fuel - 1) as nat);
}

/// Where the integers that [`PatMatrix::column_constructors`] finds in a
/// column are all that the type has, as [`Constructors::exhaustive`] says,
/// the test of that column in the decision tree of the rows has a case for
/// every integer: its default is for no value.
pub proof fn lemma_exhaustive_cases_cover(
    matrix: PatMatrix,
    paths: Seq<Path>,
    index: nat,
    found: Constructors,
    fuel: nat,
    value: u32,
)
    requires
        matrix.has_column(index),
        column_holds(matrix.column(index), Some(found)),
        found is Ints,
        found.exhaustive(),
        matrix.rows@.len() > 0,
        first_constructor_from(rows_model(matrix.rows@)[0].pats, 0) == Some(index),
        index < paths.len(),
        compile_spec(rows_model(matrix.rows@), paths, fuel) is Some,
    ensures
        ({
            let tree = compile_spec(rows_model(matrix.rows@), paths, fuel)->0;
            &&& tree is Int
            &&& exists|i: int| 0 <= i < tree->cases.len() && (#[trigger] tree->cases[i]).0 == value
        }),
{
    let tree = compile_spec(rows_model(matrix.rows@), paths, fuel)->0;
    let ints = ints_of(found->Ints_0);
    lemma_cases_are_constructors(matrix, paths, index, found, fuel);
    lemma_constructors_are_keys(matrix, index, found);
    lemma_column_keys_are_keys(rows_model(matrix.rows@), index);
    lemma_exhaustive_ints_have_no_gap(found->Ints_0, value);
    let i = choose|i: int| 0 <= i < ints.len() && ints[i] == value;
    assert(tree->cases[i].0 == value);
}

/// The cases that are compiled for keys: one for each key, in order, each
/// the tree of the rows that are kept for its key.
proof fn lemma_cases(
    rows: Seq<RowModel>,
    paths: Seq<Path>,
    column: nat,
    keys: Seq<u32>,
    from: nat,
    fuel: nat,
)
    requires
        from <= keys.len(),
        compile_cases_spec(rows, paths, column, keys, from, fuel) is Some,
    ensures
        ({
            let cases = compile_cases_spec(rows, paths, column, keys, from, fuel)->0;
            &&& cases.len() == keys.len() - from
            &&& forall|i: int|
                0 <= i < cases.len() ==> (#[trigger] cases[i]).0 == keys[from + i] && compile_spec(
                    select_rows(rows, column, Const::Int(keys[from + i])),
                    paths,
                    fuel,
                ) == Some(cases[i].1)
        }),
    decreases keys.len() - from,
{
    if from < keys.len() {
        lemma_cases(rows, paths, column, keys, from + 1, fuel);
        let rest = compile_cases_spec(rows, paths, column, keys, from + 1, fuel)->0;
        let cases = compile_cases_spec(rows, paths, column, keys, from, fuel)->0;
        assert forall|i: int| 0 <= i < cases.len() implies (#[trigger] cases[i]).0 == keys[from
            + i] && compile_spec(
            select_rows(rows, column, Const::Int(keys[from + i])),
            paths,
            fuel,
        ) == Some(cases[i].1) by {
            if i > 0 {
                assert(cases[i] == rest[i - 1]);
            }
        }
    }
}

/// What a test of an integer takes: for a key among the keys of the cases,
/// what the case of that key takes; for any other, what the default takes.
proof fn lemma_decide_cases(
    tree: Tree,
    key: u32,
    from: nat,
    value: Scrutinee,
    guards: spec_fn(nat) -> bool,
)
    requires
        tree is Int,
        from <= tree->cases.len(),
        forall|i: int, j: int|
            0 <= i < j < tree->cases.len() ==> (#[trigger] tree->cases[i]).0 < (
            #[trigger] tree->cases[j]).0,
    ensures
        forall|m: int|
            from <= m < tree->cases.len() && (#[trigger] tree->cases[m]).0 == key ==> decide_cases(
                tree,
                key,
                from,
                value,
                guards,
            ) == decide(tree->cases[m].1, value, guards),
        (forall|m: int| from <= m < tree->cases.len() ==> (#[trigger] tree->cases[m]).0 != key)
            ==> decide_cases(tree, key, from, value, guards) == decide(
            *tree->default,
            value,
            guards,
        ),
    decreases tree->cases.len() - from,
{
    if from < tree->cases.len() {
        lemma_decide_cases(tree, key, from + 1, value, guards);
        if tree->cases[from as int].0 == key {
            assert forall|m: int|
                from <= m < tree->cases.len() && (#[trigger] tree->cases[m]).0
                    == key implies decide_cases(tree, key, from, value, guards) == decide(
                tree->cases[m].1,
                value,
                guards,
            ) by {
                if m > from {
                    assert(tree->cases[from as int].0 < tree->cases[m].0);
                }
            }
        }
    }
}

/// The decision tree that rows compile to takes, for every value of the
/// shape that the rows ask about, the arm of the first row that takes the
/// value: the first whose patterns the value matches and whose guard, if it
/// has one, holds. It takes no arm where no row takes the value.
pub proof fn lemma_compile_first_match(
    rows: Seq<RowModel>,
    paths: Seq<Path>,
    value: Scrutinee,
    guards: spec_fn(nat) -> bool,
    fuel: nat,
)
    requires
        typed(rows, paths, value),
        compile_spec(rows, paths, fuel) is Some,
    ensures
        decide(compile_spec(rows, paths, fuel)->0, value, guards) == first_match(
            rows,
            paths,
            value,
            guards,
            0,
        ),
    decreases fuel,
{
    if rows.len() == 0 {
        return ;
    }
    let fuel = (fuel - 1) as nat;
    let row = rows[0];
    assert(row.pats.len() == paths.len());
    lemma_first_constructor_bound(row.pats, 0);
    match first_constructor_from(row.pats, 0) {
        None => {
            lemma_all_wild(row.pats, 0);
            assert(row_matches(row, paths, value));
            if row.guarded {
                let rest = rows.drop_first();
                assert forall|i: int| 0 <= i < rest.len() implies (#[trigger] rest[i]).pats.len()
                    == paths.len() && forall|j: int|
                    0 <= j < paths.len() ==> shaped(
                        #[trigger] rest[i].pats[j],
                        part(value, paths[j]),
                    ) by {
                    assert(rest[i] == rows[i + 1]);
                }
                lemma_compile_first_match(rest, paths, value, guards, fuel);
                lemma_first_match_shift(rows, paths, value, guards, 0);
            }
        },
        Some(column) => {
            let at = part(value, paths[column as int]);
            assert(shaped(row.pats[column as int], at));
            match row.pats[column as int] {
                PatModel::Wild => {},
                PatModel::Record(fields) => {
                    let labels = field_labels(fields);
                    lemma_expand(rows, paths, value, guards, column, labels, 0);
                    lemma_compile_first_match(
                        expand_rows(rows, column, labels),
                        expand_paths(paths, column, labels),
                        value,
                        guards,
                        fuel,
                    );
                },
                PatModel::Lit(Const::Bool(_)) => {
                    let known = at->0->Bool_0;
                    assert(at == Some(lit_value(Const::Bool(known))));
                    lemma_select(rows, paths, value, guards, column, Const::Bool(known), 0);
                    lemma_select_typed(rows, paths, value, column, Const::Bool(known), 0);
                    lemma_compile_first_match(
                        select_rows(rows, column, Const::Bool(known)),
                        paths,
                        value,
                        guards,
                        fuel,
                    );
                },
                PatModel::Lit(Const::Int(_)) => {
                    let known = at->0->Int_0;
                    assert(at == Some(lit_value(Const::Int(known))));
                    let keys = column_keys(rows, column);
                    lemma_column_keys_are_keys(rows, column);
                    lemma_cases(rows, paths, column, keys, 0, fuel);
                    let tree = compile_spec(rows, paths, (fuel + 1) as nat)->0;
                    let cases = tree->cases;
                    assert(cases == compile_cases_spec(rows, paths, column, keys, 0, fuel)->0);
                    assert forall|i: int, j: int| 0 <= i < j < cases.len() implies (
                    #[trigger] cases[i]).0 < (#[trigger] cases[j]).0 by {
                        assert(keys[i] < keys[j]);
                    }
                    lemma_decide_cases(tree, known, 0, value, guards);
                    if keys.contains(known) {
                        let m = choose|m: int| 0 <= m < keys.len() && keys[m] == known;
                        assert(cases[m].0 == known);
                        lemma_select(rows, paths, value, guards, column, Const::Int(known), 0);
                        lemma_select_typed(rows, paths, value, column, Const::Int(known), 0);
                        lemma_compile_first_match(
                            select_rows(rows, column, Const::Int(known)),
                            paths,
                            value,
                            guards,
                            fuel,
                        );
                    } else {
                        assert forall|m: int| 0 <= m < cases.len() implies (#[trigger] cases[m]).0
                            != known by {
                            assert(keys[m] == cases[m].0);
                            if keys[m] == known {
                                assert(keys.contains(known));
                            }
                        }
                        assert forall|i: int| !asks_for(rows, column, i, known) by {
                            if asks_for(rows, column, i, known) {
                                assert(keys.contains(known));
                            }
                        }
                        lemma_default(rows, paths, value, guards, column, known, 0);
                        lemma_default_typed(rows, paths, value, column, 0);
                        lemma_compile_first_match(
                            default_rows(rows, column),
                            paths,
                            value,
                            guards,
                            fuel,
                        );
                    }
                },
            }
        },
    }
}

/// A row without a constructor is a row of wildcards.
proof fn lemma_all_wild(pats: Seq<PatModel>, from: nat)
    requires
        first_constructor_from(pats, from) is None,
    ensures
        forall|j: int| from <= j < pats.len() ==> #[trigger] pats[j] is Wild,
    decreases pats.len() - from,
{
    if from < pats.len() {
        lemma_all_wild(pats, from + 1);
    }
}

/// Whether the cases of every test of an integer in the tree stand in
/// ascending order of their keys, no key twice.
pub open spec fn cases_ascend(tree: Tree) -> bool
    decreases tree,
{
    match tree {
        Tree::Fail | Tree::Leaf(_) => true,
        Tree::Guard { otherwise, .. } => cases_ascend(*otherwise),
        Tree::Bool { on_true, on_false, .. } => cases_ascend(*on_true) && cases_ascend(*on_false),
        Tree::Int { cases, default, .. } => {
            &&& forall|i: int, j: int|
                0 <= i < j < cases.len() ==> (#[trigger] cases[i]).0 < (#[trigger] cases[j]).0
            &&& forall|i: int| 0 <= i < cases.len() ==> cases_ascend((#[trigger] cases[i]).1)
            &&& cases_ascend(*default)
        },
    }
}

/// In the decision tree that rows compile to, the cases of every test of an
/// integer stand in ascending order of their keys, and no key stands twice.
pub proof fn lemma_compiled_cases_ascend(rows: Seq<RowModel>, paths: Seq<Path>, fuel: nat)
    requires
        compile_spec(rows, paths, fuel) is Some,
    ensures
        cases_ascend(compile_spec(rows, paths, fuel)->0),
    decreases fuel,
{
    if rows.len() == 0 {
        return ;
    }
    let fuel = (fuel - 1) as nat;
    let row = rows[0];
    match first_constructor_from(row.pats, 0) {
        None => {
            if row.guarded {
                lemma_compiled_cases_ascend(rows.drop_first(), paths, fuel);
            }
        },
        Some(column) => {
            if column < paths.len() {
                match row.pats[column as int] {
                    PatModel::Wild => {},
                    PatModel::Record(fields) => {
                        lemma_compiled_cases_ascend(
                            expand_rows(rows, column, field_labels(fields)),
                            expand_paths(paths, column, field_labels(fields)),
                            fuel,
                        );
                    },
                    PatModel::Lit(Const::Bool(_)) => {
                        lemma_compiled_cases_ascend(
                            select_rows(rows, column, Const::Bool(true)),
                            paths,
                            fuel,
                        );
                        lemma_compiled_cases_ascend(
                            select_rows(rows, column, Const::Bool(false)),
                            paths,
                            fuel,
                        );
                    },
                    PatModel::Lit(Const::Int(_)) => {
                        let keys = column_keys(rows, column);
                        lemma_column_keys_are_keys(rows, column);
                        lemma_cases(rows, paths, column, keys, 0, fuel);
                        let cases = compile_cases_spec(rows, paths, column, keys, 0, fuel)->0;
                        assert forall|i: int, j: int| 0 <= i < j < cases.len() implies (
                        #[trigger] cases[i]).0 < (#[trigger] cases[j]).0 by {
                            assert(keys[i] < keys[j]);
                        }
                        assert forall|i: int| 0 <= i < cases.len() implies cases_ascend(
                            (#[trigger] cases[i]).1,
                        ) by {
                            assert(cases[i].0 == keys[0 + i]);
                            assert(compile_spec(
                                select_rows(rows, column, Const::Int(keys[0 + i])),
                                paths,
                                fuel,
                            ) == Some(cases[i].1));
                            lemma_compiled_cases_ascend(
                                select_rows(rows, column, Const::Int(keys[i])),
                                paths,
                                fuel,
                            );
                        }
                        lemma_compiled_cases_ascend(default_rows(rows, column), paths, fuel);
                    },
                }
            }
        },
    }
}

} // verus!
