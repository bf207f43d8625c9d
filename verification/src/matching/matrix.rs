//! The pattern matrix of a match: one row for each arm, one column for each
//! scrutinee.

use crate::syntax::{Expr, Pat};
use vstd::prelude::*;

verus! {

/// One arm of a match: a pattern for each scrutinee, an optional guard, and
/// the number of the arm's right-hand side.
#[derive(Debug, Clone)]
pub struct PatRow<'core> {
    pub pats: Vec<Pat<'core>>,
    pub guard: Option<Expr<'core>>,
    pub body: usize,
}

/// The arms of a match, in source order.
#[derive(Debug, Clone)]
pub struct PatMatrix<'core> {
    pub rows: Vec<PatRow<'core>>,
}

impl<'core> PatMatrix<'core> {
    /// Whether every row has a pattern in column `index`.
    pub open spec fn has_column(&self, index: nat) -> bool {
        forall|i: int| 0 <= i < self.rows@.len() ==> index < (#[trigger] self.rows@[i]).pats@.len()
    }

    /// The patterns of column `index`, from the first row to the last.
    pub open spec fn column(&self, index: nat) -> Seq<Pat<'core>> {
        Seq::new(self.rows@.len(), |i: int| self.rows@[i].pats@[index as int])
    }

    /// The matrix with the given rows.
    pub fn new(rows: Vec<PatRow<'core>>) -> (m: Self)
        ensures
            m.rows == rows,
    {
        PatMatrix { rows }
    }

    /// The number of rows.
    pub fn num_rows(&self) -> (n: usize)
        ensures
            n == self.rows@.len(),
    {
        self.rows.len()
    }
}

} // verus!
