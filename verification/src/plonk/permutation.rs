//! The columns that take part in equality constraints.

use crate::plonk::circuit::Any;
use crate::plonk::circuit::Column;
use vstd::prelude::*;

verus! {

/// Whether two columns are the same column.
pub open spec fn same_column(a: Column<Any>, b: Column<Any>) -> bool {
    a.index == b.index && a.column_type == b.column_type
}

/// A permutation argument.
#[derive(Debug)]
pub struct Argument {
    /// A sequence of columns involved in the argument.
    pub columns: Vec<Column<Any>>,
}

impl Argument {
    pub fn new() -> (r: Self)
        ensures
            r.columns@.len() == 0,
    {
        Argument { columns: Vec::new() }
    }

    /// Returns the minimum circuit degree required by the permutation
    /// argument: there are constraints of degree 3 regardless of the number
    /// of columns involved.
    pub fn required_degree(&self) -> (r: usize)
        ensures
            r == 3,
    {
        3
    }

    /// Whether `column` is among `columns`.
    pub open spec fn has_column(columns: Seq<Column<Any>>, column: Column<Any>) -> bool {
        exists|i: int| 0 <= i < columns.len() && same_column(#[trigger] columns[i], column)
    }

    /// `columns` with `column` at the end, unless it is among them.
    pub open spec fn with_column(columns: Seq<Column<Any>>, column: Column<Any>) -> Seq<
        Column<Any>,
    > {
        if Argument::has_column(columns, column) {
            columns
        } else {
            columns.push(column)
        }
    }

    /// Whether `column` takes part in the argument.
    pub fn contains(&self, column: &Column<Any>) -> (r: bool)
        ensures
            r == Argument::has_column(self.columns@, *column),
    {
        let mut i: usize = 0;
        while i < self.columns.len()
            invariant
                i <= self.columns@.len(),
                forall|k: int| 0 <= k < i ==> !same_column(#[trigger] self.columns@[k], *column),
            decreases self.columns@.len() - i,
        {
            let c = &self.columns[i];
            if c.index == column.index && c.column_type == column.column_type {
                return true;
            }
            i += 1;
        }
        false
    }

    /// Adds `column` to the argument, once.
    pub fn add_column(&mut self, column: Column<Any>)
        ensures
            final(self).columns@ == Argument::with_column(old(self).columns@, column),
    {
        if !self.contains(&column) {
            self.columns.push(column);
        }
    }

    /// The columns involved, in the order they were added.
    pub fn get_columns(&self) -> (r: Vec<Column<Any>>)
        ensures
            r@ == self.columns@,
    {
        let mut out: Vec<Column<Any>> = Vec::new();
        let mut i: usize = 0;
        while i < self.columns.len()
            invariant
                i <= self.columns@.len(),
                out@ == self.columns@.take(i as int),
            decreases self.columns@.len() - i,
        {
            out.push(self.columns[i]);
            assert(self.columns@.take(i + 1) =~= self.columns@.take(i as int).push(
                self.columns@[i as int],
            ));
            i += 1;
        }
        assert(self.columns@.take(i as int) =~= self.columns@);
        out
    }
}

} // verus!
