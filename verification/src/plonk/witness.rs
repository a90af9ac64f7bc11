//! An assignment of values to the cells of a circuit, and the check that it
//! satisfies a constraint system.

use crate::bn256::fr::Fr;
use crate::plonk::circuit::Advice;
use crate::plonk::circuit::Any;
use crate::plonk::circuit::Challenge;
use crate::plonk::circuit::Column;
use crate::plonk::circuit::Fixed;
use crate::plonk::circuit::Instance;
use crate::plonk::circuit::Selector;
use crate::plonk::constraint_system::ConstraintSystem;
use crate::plonk::expression::Env;
use crate::plonk::expression::Expression;
use crate::poly::Rotation;
use vstd::arithmetic::div_mod::lemma_add_mod_noop;
use vstd::arithmetic::div_mod::lemma_fundamental_div_mod;
use vstd::arithmetic::div_mod::lemma_mod_multiples_vanish;
use vstd::arithmetic::div_mod::lemma_small_mod;
use vstd::prelude::*;

verus! {

/// Why an assignment was refused.
#[derive(Clone, Copy, Debug, PartialEq, Eq, Structural)]
pub enum Error {
    /// The column or the row does not exist in the assignment.
    BoundsFailure,
    /// The challenge does not exist in the assignment.
    UnknownChallenge,
    /// A row of the processor table reads input and no row follows it.
    IncompleteTrace,
}

/// A cell of the circuit.
#[derive(Clone, Copy, Debug)]
pub struct Cell {
    pub column: Column<Any>,
    pub row: usize,
}

/// A cell together with the value assigned to it.
#[derive(Clone, Copy, Debug)]
pub struct AssignedCell {
    pub value: Fr,
    pub cell: Cell,
}

impl AssignedCell {
    /// The cell is the advice cell of `column` at `row`.
    pub open spec fn at(self, column: Column<Advice>, row: int) -> bool {
        &&& self.cell.row == row
        &&& self.cell.column.index == column.index
        &&& self.cell.column.column_type == Any::Advice(column.column_type)
    }

    /// The value assigned to the cell.
    pub fn value(&self) -> (r: Fr)
        ensures
            r == self.value,
    {
        self.value
    }

    /// The cell.
    pub fn cell(&self) -> (r: Cell)
        ensures
            r == self.cell,
    {
        self.cell
    }
}

/// Why an assignment does not satisfy a constraint system.
#[derive(Clone, Copy, Debug, PartialEq, Eq, Structural)]
pub enum VerifyFailure {
    /// A polynomial of a gate does not vanish on a row.
    ConstraintNotSatisfied { gate: usize, poly: usize, row: usize },
    /// The input of a lookup is not in the table on a row.
    Lookup { lookup: usize, row: usize },
    /// Two cells that were constrained equal hold different values.
    Permutation { copy: usize },
}

/// The row that lies `rotation` rows after `row` in a circuit of `rows`
/// rows, where the last row is followed by the first.
pub open spec fn rotated(row: int, rotation: int, rows: int) -> int {
    (row + rotation) % rows
}

/// Values for the cells, selectors and challenges of a circuit.
#[derive(Debug)]
pub struct Witness {
    /// The number of rows of every column.
    pub rows: usize,
    /// The advice cells, by column and row.
    pub advice: Vec<Vec<Fr>>,
    /// The fixed cells, by column and row.
    pub fixed: Vec<Vec<Fr>>,
    /// The instance cells, by column and row.
    pub instance: Vec<Vec<Fr>>,
    /// Whether a selector is enabled, by selector and row.
    pub selectors: Vec<Vec<bool>>,
    /// The values of the challenges.
    pub challenges: Vec<Fr>,
    /// The pairs of cells constrained equal.
    pub copies: Vec<(Cell, Cell)>,
}

/// A column of `rows` zeros.
fn zero_column(rows: usize) -> (r: Vec<Fr>)
    ensures
        r@.len() == rows,
        forall|i: int| 0 <= i < rows ==> (#[trigger] r@[i])@ == 0,
{
    let mut v: Vec<Fr> = Vec::new();
    let mut i: usize = 0;
    while i < rows
        invariant
            i <= rows,
            v@.len() == i,
            forall|k: int| 0 <= k < i ==> (#[trigger] v@[k])@ == 0,
        decreases rows - i,
    {
        v.push(Fr::zero());
        i += 1;
    }
    v
}

/// `columns` columns of `rows` zeros.
fn zero_grid(columns: usize, rows: usize) -> (r: Vec<Vec<Fr>>)
    ensures
        r@.len() == columns,
        forall|c: int| 0 <= c < columns ==> (#[trigger] r@[c])@.len() == rows,
        forall|c: int, i: int| 0 <= c < columns && 0 <= i < rows ==> (#[trigger] r@[c]@[i])@ == 0,
{
    let mut g: Vec<Vec<Fr>> = Vec::new();
    let mut c: usize = 0;
    while c < columns
        invariant
            c <= columns,
            g@.len() == c,
            forall|k: int| 0 <= k < c ==> (#[trigger] g@[k])@.len() == rows,
            forall|k: int, i: int| 0 <= k < c && 0 <= i < rows ==> (#[trigger] g@[k]@[i])@ == 0,
        decreases columns - c,
    {
        g.push(zero_column(rows));
        c += 1;
    }
    g
}

/// `columns` columns of `rows` disabled selectors.
fn disabled_grid(columns: usize, rows: usize) -> (r: Vec<Vec<bool>>)
    ensures
        r@.len() == columns,
        forall|c: int| 0 <= c < columns ==> (#[trigger] r@[c])@.len() == rows,
        forall|c: int, i: int| 0 <= c < columns && 0 <= i < rows ==> !(#[trigger] r@[c]@[i]),
{
    let mut g: Vec<Vec<bool>> = Vec::new();
    let mut c: usize = 0;
    while c < columns
        invariant
            c <= columns,
            g@.len() == c,
            forall|k: int| 0 <= k < c ==> (#[trigger] g@[k])@.len() == rows,
            forall|k: int, i: int| 0 <= k < c && 0 <= i < rows ==> !(#[trigger] g@[k]@[i]),
        decreases columns - c,
    {
        let mut v: Vec<bool> = Vec::new();
        let mut i: usize = 0;
        while i < rows
            invariant
                i <= rows,
                v@.len() == i,
                forall|k: int| 0 <= k < i ==> !(#[trigger] v@[k]),
            decreases rows - i,
        {
            v.push(false);
            i += 1;
        }
        g.push(v);
        c += 1;
    }
    g
}

impl Witness {
    /// There is a row, and every column has as many rows as the circuit.
    pub open spec fn well_formed(&self) -> bool {
        &&& self.rows > 0
        &&& forall|c: int| 0 <= c < self.advice@.len() ==> (#[trigger] self.advice@[c])@.len() == self.rows
        &&& forall|c: int| 0 <= c < self.fixed@.len() ==> (#[trigger] self.fixed@[c])@.len() == self.rows
        &&& forall|c: int|
            0 <= c < self.instance@.len() ==> (#[trigger] self.instance@[c])@.len() == self.rows
        &&& forall|c: int|
            0 <= c < self.selectors@.len() ==> (#[trigger] self.selectors@[c])@.len() == self.rows
    }

    /// The value of an advice cell; zero outside the assignment.
    pub open spec fn advice_at(&self, column: int, row: int) -> nat {
        if 0 <= column < self.advice@.len() && 0 <= row < self.advice@[column]@.len() {
            self.advice@[column]@[row]@
        } else {
            0
        }
    }

    /// The value of a fixed cell; zero outside the assignment.
    pub open spec fn fixed_at(&self, column: int, row: int) -> nat {
        if 0 <= column < self.fixed@.len() && 0 <= row < self.fixed@[column]@.len() {
            self.fixed@[column]@[row]@
        } else {
            0
        }
    }

    /// The value of an instance cell; zero outside the assignment.
    pub open spec fn instance_at(&self, column: int, row: int) -> nat {
        if 0 <= column < self.instance@.len() && 0 <= row < self.instance@[column]@.len() {
            self.instance@[column]@[row]@
        } else {
            0
        }
    }

    /// The value of a selector on a row: one where enabled, else zero.
    pub open spec fn selector_at(&self, selector: int, row: int) -> nat {
        if 0 <= selector < self.selectors@.len() && 0 <= row < self.selectors@[selector]@.len()
            && self.selectors@[selector]@[row] {
            1
        } else {
            0
        }
    }

    /// The value of a challenge; zero outside the assignment.
    pub open spec fn challenge_at(&self, index: int) -> nat {
        if 0 <= index < self.challenges@.len() {
            self.challenges@[index]@
        } else {
            0
        }
    }

    /// The value of a cell of any kind.
    pub open spec fn cell_value(&self, cell: Cell) -> nat {
        match cell.column.column_type {
            Any::Advice(_) => self.advice_at(cell.column.index as int, cell.row as int),
            Any::Fixed => self.fixed_at(cell.column.index as int, cell.row as int),
            Any::Instance => self.instance_at(cell.column.index as int, cell.row as int),
        }
    }

    /// What an expression sees on row `row`.
    pub open spec fn env(&self, row: int) -> Env {
        Env {
            selector: |s: int| self.selector_at(s, row),
            fixed: |c: int, rotation: int|
                self.fixed_at(c, rotated(row, rotation, self.rows as int)),
            advice: |c: int, rotation: int|
                self.advice_at(c, rotated(row, rotation, self.rows as int)),
            instance: |c: int, rotation: int|
                self.instance_at(c, rotated(row, rotation, self.rows as int)),
            challenge: |i: int| self.challenge_at(i),
        }
    }

    /// Every advice and fixed cell is zero and every selector disabled.
    pub open spec fn blank(&self) -> bool {
        &&& forall|c: int, i: int| #[trigger] self.advice_at(c, i) == 0
        &&& forall|c: int, i: int| #[trigger] self.fixed_at(c, i) == 0
        &&& forall|s: int, i: int| #[trigger] self.selector_at(s, i) == 0
    }

    /// The value `v` occurs in fixed column `column`.
    pub open spec fn in_table(&self, column: int, v: nat) -> bool {
        exists|r: int| 0 <= r < self.rows && #[trigger] self.fixed_at(column, r) == v
    }

    /// The assignment satisfies `cs`: every polynomial of every gate
    /// vanishes on every row, every lookup input is in its table on every
    /// row, and cells constrained equal hold equal values.
    pub open spec fn satisfies(&self, cs: &ConstraintSystem) -> bool {
        &&& forall|g: int, row: int|
            0 <= g < cs.gates@.len() && 0 <= row < self.rows ==> (#[trigger] cs.gates@[g]).holds(
                #[trigger] self.env(row),
            )
        &&& forall|l: int, row: int|
            0 <= l < cs.lookups@.len() && 0 <= row < self.rows ==> self.in_table(
                (#[trigger] cs.lookups@[l]).table.inner.index as int,
                cs.lookups@[l].input.value(#[trigger] self.env(row)),
            )
        &&& forall|k: int|
            0 <= k < self.copies@.len() ==> self.cell_value((#[trigger] self.copies@[k]).0)
                == self.cell_value(self.copies@[k].1)
    }

    /// An assignment of `rows` rows for `cs` with every cell zero, every
    /// selector disabled and no cells constrained equal.
    pub fn new(cs: &ConstraintSystem, rows: usize, challenges: Vec<Fr>) -> (r: Witness)
        requires
            rows > 0,
        ensures
            r.well_formed(),
            r.rows == rows,
            r.advice@.len() == cs.num_advice_columns,
            r.fixed@.len() == cs.num_fixed_columns,
            r.instance@.len() == cs.num_instance_columns,
            r.selectors@.len() == cs.num_selectors,
            r.challenges == challenges,
            r.copies@.len() == 0,
            r.blank(),
            forall|c: int, row: int| #[trigger] r.instance_at(c, row) == 0,
    {
        Witness {
            rows,
            advice: zero_grid(cs.num_advice_columns, rows),
            fixed: zero_grid(cs.num_fixed_columns, rows),
            instance: zero_grid(cs.num_instance_columns, rows),
            selectors: disabled_grid(cs.num_selectors, rows),
            challenges,
            copies: Vec::new(),
        }
    }

    /// Assigns an advice cell.
    pub fn assign_advice(&mut self, column: Column<Advice>, row: usize, to: Fr) -> (r: Result<
        AssignedCell,
        Error,
    >)
        requires
            old(self).well_formed(),
        ensures
            final(self).well_formed(),
            final(self).rows == old(self).rows,
            final(self).advice@.len() == old(self).advice@.len(),
            final(self).fixed == old(self).fixed,
            forall|c: int, i: int| #[trigger] final(self).fixed_at(c, i) == old(self).fixed_at(c, i),
            final(self).instance == old(self).instance,
            forall|c: int, i: int| #[trigger] final(self).instance_at(c, i) == old(self).instance_at(c, i),
            final(self).selectors == old(self).selectors,
            forall|c: int, i: int| #[trigger] final(self).selector_at(c, i) == old(self).selector_at(c, i),
            final(self).challenges == old(self).challenges,
            forall|i: int| #[trigger] final(self).challenge_at(i) == old(self).challenge_at(i),
            final(self).copies == old(self).copies,
            r.is_ok() <==> column.index < old(self).advice@.len() && row < old(self).rows,
            r.is_err() ==> r == Err::<AssignedCell, Error>(Error::BoundsFailure) && *final(self)
                == *old(self),
            r.is_ok() ==> r.unwrap().value == to && r.unwrap().at(column, row as int),
            r.is_ok() ==> forall|c: int, i: int| #[trigger]
                final(self).advice_at(c, i) == if c == column.index && i == row {
                    to@
                } else {
                    old(self).advice_at(c, i)
                },
    {
        if column.index >= self.advice.len() || row >= self.rows {
            return Err(Error::BoundsFailure);
        }
        self.advice[column.index][row] = to;
        Ok(AssignedCell { value: to, cell: Cell { column: column.to_any(), row } })
    }

    /// Assigns a fixed cell.
    pub fn assign_fixed(&mut self, column: Column<Fixed>, row: usize, to: Fr) -> (r: Result<
        AssignedCell,
        Error,
    >)
        requires
            old(self).well_formed(),
        ensures
            final(self).well_formed(),
            final(self).rows == old(self).rows,
            final(self).fixed@.len() == old(self).fixed@.len(),
            final(self).advice == old(self).advice,
            forall|c: int, i: int| #[trigger] final(self).advice_at(c, i) == old(self).advice_at(c, i),
            final(self).instance == old(self).instance,
            forall|c: int, i: int| #[trigger] final(self).instance_at(c, i) == old(self).instance_at(c, i),
            final(self).selectors == old(self).selectors,
            forall|c: int, i: int| #[trigger] final(self).selector_at(c, i) == old(self).selector_at(c, i),
            final(self).challenges == old(self).challenges,
            forall|i: int| #[trigger] final(self).challenge_at(i) == old(self).challenge_at(i),
            final(self).copies == old(self).copies,
            r.is_ok() <==> column.index < old(self).fixed@.len() && row < old(self).rows,
            r.is_err() ==> r == Err::<AssignedCell, Error>(Error::BoundsFailure) && *final(self)
                == *old(self),
            r.is_ok() ==> r.unwrap().value == to && r.unwrap().cell.row == row
                && r.unwrap().cell.column.index == column.index && r.unwrap().cell.column.column_type
                == Any::Fixed,
            r.is_ok() ==> forall|c: int, i: int| #[trigger]
                final(self).fixed_at(c, i) == if c == column.index && i == row {
                    to@
                } else {
                    old(self).fixed_at(c, i)
                },
    {
        if column.index >= self.fixed.len() || row >= self.rows {
            return Err(Error::BoundsFailure);
        }
        self.fixed[column.index][row] = to;
        Ok(AssignedCell { value: to, cell: Cell { column: column.to_any(), row } })
    }

    /// Assigns an instance cell.
    pub fn assign_instance(&mut self, column: Column<Instance>, row: usize, to: Fr) -> (r: Result<
        (),
        Error,
    >)
        requires
            old(self).well_formed(),
        ensures
            final(self).well_formed(),
            final(self).rows == old(self).rows,
            final(self).instance@.len() == old(self).instance@.len(),
            final(self).advice == old(self).advice,
            forall|c: int, i: int| #[trigger] final(self).advice_at(c, i) == old(self).advice_at(c, i),
            final(self).fixed == old(self).fixed,
            forall|c: int, i: int| #[trigger] final(self).fixed_at(c, i) == old(self).fixed_at(c, i),
            final(self).selectors == old(self).selectors,
            forall|c: int, i: int| #[trigger] final(self).selector_at(c, i) == old(self).selector_at(c, i),
            final(self).challenges == old(self).challenges,
            forall|i: int| #[trigger] final(self).challenge_at(i) == old(self).challenge_at(i),
            final(self).copies == old(self).copies,
            r.is_ok() <==> column.index < old(self).instance@.len() && row < old(self).rows,
            r.is_err() ==> r == Err::<(), Error>(Error::BoundsFailure) && *final(self) == *old(
                self,
            ),
            r.is_ok() ==> forall|c: int, i: int| #[trigger]
                final(self).instance_at(c, i) == if c == column.index && i == row {
                    to@
                } else {
                    old(self).instance_at(c, i)
                },
    {
        if column.index >= self.instance.len() || row >= self.rows {
            return Err(Error::BoundsFailure);
        }
        self.instance[column.index][row] = to;
        Ok(())
    }

    /// Enables a selector at the given row.
    pub fn enable_selector(&mut self, selector: &Selector, row: usize) -> (r: Result<(), Error>)
        requires
            old(self).well_formed(),
        ensures
            final(self).well_formed(),
            final(self).rows == old(self).rows,
            final(self).selectors@.len() == old(self).selectors@.len(),
            final(self).advice == old(self).advice,
            forall|c: int, i: int| #[trigger] final(self).advice_at(c, i) == old(self).advice_at(c, i),
            final(self).fixed == old(self).fixed,
            forall|c: int, i: int| #[trigger] final(self).fixed_at(c, i) == old(self).fixed_at(c, i),
            final(self).instance == old(self).instance,
            forall|c: int, i: int| #[trigger] final(self).instance_at(c, i) == old(self).instance_at(c, i),
            final(self).challenges == old(self).challenges,
            forall|i: int| #[trigger] final(self).challenge_at(i) == old(self).challenge_at(i),
            final(self).copies == old(self).copies,
            r.is_ok() <==> selector.0 < old(self).selectors@.len() && row < old(self).rows,
            r.is_err() ==> r == Err::<(), Error>(Error::BoundsFailure) && *final(self) == *old(
                self,
            ),
            r.is_ok() ==> forall|s: int, i: int| #[trigger]
                final(self).selector_at(s, i) == if s == selector.0 && i == row {
                    1
                } else {
                    old(self).selector_at(s, i)
                },
    {
        if selector.0 >= self.selectors.len() || row >= self.rows {
            return Err(Error::BoundsFailure);
        }
        self.selectors[selector.0][row] = true;
        Ok(())
    }

    /// Queries the value of the given challenge.
    pub fn get_challenge(&self, challenge: Challenge) -> (r: Result<Fr, Error>)
        ensures
            r.is_ok() <==> challenge.index < self.challenges@.len(),
            r.is_ok() ==> r.unwrap() == self.challenges@[challenge.index as int] && r.unwrap()@
                == self.challenge_at(challenge.index as int),
            r.is_err() ==> r == Err::<Fr, Error>(Error::UnknownChallenge),
    {
        if challenge.index < self.challenges.len() {
            Ok(self.challenges[challenge.index])
        } else {
            Err(Error::UnknownChallenge)
        }
    }

    /// Constrains two cells to have the same value.
    pub fn constrain_equal(&mut self, left: Cell, right: Cell)
        ensures
            final(self).copies@ == old(self).copies@.push((left, right)),
            final(self).rows == old(self).rows,
            final(self).advice == old(self).advice,
            forall|c: int, i: int| #[trigger] final(self).advice_at(c, i) == old(self).advice_at(c, i),
            final(self).fixed == old(self).fixed,
            forall|c: int, i: int| #[trigger] final(self).fixed_at(c, i) == old(self).fixed_at(c, i),
            final(self).instance == old(self).instance,
            forall|c: int, i: int| #[trigger] final(self).instance_at(c, i) == old(self).instance_at(c, i),
            final(self).selectors == old(self).selectors,
            forall|c: int, i: int| #[trigger] final(self).selector_at(c, i) == old(self).selector_at(c, i),
            final(self).challenges == old(self).challenges,
            forall|i: int| #[trigger] final(self).challenge_at(i) == old(self).challenge_at(i),
    {
        self.copies.push((left, right));
    }

    /// Constrains a cell to equal the cell of an instance column at `row`.
    pub fn constrain_instance(&mut self, cell: Cell, column: Column<Instance>, row: usize)
        ensures
            final(self).copies@ == old(self).copies@.push(
                (cell, Cell { column: Column { index: column.index, column_type: Any::Instance }, row }),
            ),
            final(self).rows == old(self).rows,
            final(self).advice == old(self).advice,
            forall|c: int, i: int| #[trigger] final(self).advice_at(c, i) == old(self).advice_at(c, i),
            final(self).fixed == old(self).fixed,
            forall|c: int, i: int| #[trigger] final(self).fixed_at(c, i) == old(self).fixed_at(c, i),
            final(self).instance == old(self).instance,
            forall|c: int, i: int| #[trigger] final(self).instance_at(c, i) == old(self).instance_at(c, i),
            final(self).selectors == old(self).selectors,
            forall|c: int, i: int| #[trigger] final(self).selector_at(c, i) == old(self).selector_at(c, i),
            final(self).challenges == old(self).challenges,
            forall|i: int| #[trigger] final(self).challenge_at(i) == old(self).challenge_at(i),
    {
        self.copies.push((cell, Cell { column: column.to_any(), row }));
    }

    /// The row `rotation` rows after `row`, wrapping at the end.
    pub fn rotate(&self, row: usize, rotation: Rotation) -> (r: usize)
        requires
            self.rows > 0,
            row < self.rows,
        ensures
            r == rotated(row as int, rotation.0 as int, self.rows as int),
            r < self.rows,
    {
        let n = self.rows as u128;
        let ghost ni = self.rows as int;
        if rotation.0 >= 0 {
            let k = (rotation.0 as u128) % n;
            let r = (row as u128 + k) % n;
            proof {
                lemma_add_mod_noop(row as int, rotation.0 as int, ni);
                lemma_small_mod(row as nat, self.rows as nat);
            }
            r as usize
        } else {
            let back: u128 = (-(rotation.0 as i64)) as u128;
            let k = back % n;
            let r = (row as u128 + n - k) % n;
            proof {
                lemma_fundamental_div_mod(back as int, ni);
                let q = (back as int) / ni;
                assert(back as int == ni * q + k);
                assert(row + ni - k == row + rotation.0 + ni * (q + 1)) by (nonlinear_arith)
                    requires
                        back as int == ni * q + k,
                        back as int == -(rotation.0 as int),
                ;
                lemma_mod_multiples_vanish(q + 1, row + rotation.0, ni);
            }
            r as usize
        }
    }

    /// The value of a cell of any kind; zero outside the assignment.
    pub fn value_of(&self, cell: &Cell) -> (r: Fr)
        requires
            self.well_formed(),
        ensures
            r@ == self.cell_value(*cell),
    {
        let c = cell.column.index;
        let row = cell.row;
        match cell.column.column_type {
            Any::Advice(_) => {
                if c < self.advice.len() && row < self.rows {
                    self.advice[c][row]
                } else {
                    Fr::zero()
                }
            },
            Any::Fixed => {
                if c < self.fixed.len() && row < self.rows {
                    self.fixed[c][row]
                } else {
                    Fr::zero()
                }
            },
            Any::Instance => {
                if c < self.instance.len() && row < self.rows {
                    self.instance[c][row]
                } else {
                    Fr::zero()
                }
            },
        }
    }

    /// The value of `expression` on row `row`.
    pub fn evaluate(&self, expression: &Expression, row: usize) -> (r: Fr)
        requires
            self.well_formed(),
            row < self.rows,
        ensures
            r@ == expression.value(self.env(row as int)),
        decreases *expression,
    {
        match expression {
            Expression::Constant(c) => *c,
            Expression::Selector(s) => {
                if s.0 < self.selectors.len() && self.selectors[s.0][row] {
                    Fr::one()
                } else {
                    Fr::zero()
                }
            },
            Expression::Fixed(q) => {
                let at = self.rotate(row, q.rotation);
                if q.column_index < self.fixed.len() {
                    self.fixed[q.column_index][at]
                } else {
                    Fr::zero()
                }
            },
            Expression::Advice(q) => {
                let at = self.rotate(row, q.rotation);
                if q.column_index < self.advice.len() {
                    self.advice[q.column_index][at]
                } else {
                    Fr::zero()
                }
            },
            Expression::Instance(q) => {
                let at = self.rotate(row, q.rotation);
                if q.column_index < self.instance.len() {
                    self.instance[q.column_index][at]
                } else {
                    Fr::zero()
                }
            },
            Expression::Challenge(c) => {
                if c.index < self.challenges.len() {
                    self.challenges[c.index]
                } else {
                    Fr::zero()
                }
            },
            Expression::Negated(a) => self.evaluate(a, row).neg(),
            Expression::Sum(a, b) => self.evaluate(a, row).add(&self.evaluate(b, row)),
            Expression::Product(a, b) => self.evaluate(a, row).mul(&self.evaluate(b, row)),
            Expression::Scaled(a, f) => self.evaluate(a, row).mul(f),
        }
    }

    /// Whether `v` occurs in fixed column `column`.
    pub fn table_contains(&self, column: usize, v: &Fr) -> (r: bool)
        requires
            self.well_formed(),
        ensures
            r == self.in_table(column as int, v@),
    {
        let mut i: usize = 0;
        while i < self.rows
            invariant
                i <= self.rows,
                self.well_formed(),
                forall|k: int| 0 <= k < i ==> #[trigger] self.fixed_at(column as int, k) != v@,
            decreases self.rows - i,
        {
            let cell = if column < self.fixed.len() {
                self.fixed[column][i]
            } else {
                Fr::zero()
            };
            if cell == *v {
                assert(self.fixed_at(column as int, i as int) == v@);
                return true;
            }
            proof {
                if cell@ == v@ {
                    cell.lemma_view_injective(*v);
                }
            }
            i += 1;
        }
        false
    }

    /// Checks the assignment against `cs`: gates first, in their order, each
    /// polynomial on each row; then lookups; then equality constraints. The
    /// first violation found is reported.
    pub fn verify(&self, cs: &ConstraintSystem) -> (r: Result<(), VerifyFailure>)
        requires
            self.well_formed(),
        ensures
            r.is_ok() <==> self.satisfies(cs),
            match r {
                Ok(_) => true,
                Err(VerifyFailure::ConstraintNotSatisfied { gate, poly, row }) => gate
                    < cs.gates@.len() && poly < cs.gates@[gate as int].polys@.len() && row
                    < self.rows && cs.gates@[gate as int].polys@[poly as int].value(
                    self.env(row as int),
                ) != 0,
                Err(VerifyFailure::Lookup { lookup, row }) => lookup < cs.lookups@.len() && row
                    < self.rows && !self.in_table(
                    cs.lookups@[lookup as int].table.inner.index as int,
                    cs.lookups@[lookup as int].input.value(self.env(row as int)),
                ),
                Err(VerifyFailure::Permutation { copy }) => copy < self.copies@.len()
                    && self.cell_value(self.copies@[copy as int].0) != self.cell_value(
                    self.copies@[copy as int].1,
                ),
            },
    {
        let mut g: usize = 0;
        while g < cs.gates.len()
            invariant
                g <= cs.gates@.len(),
                self.well_formed(),
                forall|k: int, row: int|
                    0 <= k < g && 0 <= row < self.rows ==> (#[trigger] cs.gates@[k]).holds(
                        #[trigger] self.env(row),
                    ),
            decreases cs.gates@.len() - g,
        {
            let gate = &cs.gates[g];
            let mut j: usize = 0;
            while j < gate.polys.len()
                invariant
                    j <= gate.polys@.len(),
                    g < cs.gates@.len(),
                    *gate == cs.gates@[g as int],
                    self.well_formed(),
                    forall|p: int, row: int|
                        0 <= p < j && 0 <= row < self.rows ==> (#[trigger] gate.polys@[p]).value(
                            #[trigger] self.env(row),
                        ) == 0,
                decreases gate.polys@.len() - j,
            {
                let mut row: usize = 0;
                while row < self.rows
                    invariant
                        row <= self.rows,
                        j < gate.polys@.len(),
                        g < cs.gates@.len(),
                        *gate == cs.gates@[g as int],
                        self.well_formed(),
                        forall|i: int|
                            0 <= i < row ==> gate.polys@[j as int].value(#[trigger] self.env(i))
                                == 0,
                    decreases self.rows - row,
                {
                    let v = self.evaluate(&gate.polys[j], row);
                    if !v.is_zero() {
                        proof {
                            assert(!cs.gates@[g as int].holds(self.env(row as int)));
                        }
                        return Err(
                            VerifyFailure::ConstraintNotSatisfied { gate: g, poly: j, row },
                        );
                    }
                    row += 1;
                }
                j += 1;
            }
            g += 1;
        }
        let mut l: usize = 0;
        while l < cs.lookups.len()
            invariant
                l <= cs.lookups@.len(),
                self.well_formed(),
                forall|k: int, row: int|
                    0 <= k < l && 0 <= row < self.rows ==> self.in_table(
                        (#[trigger] cs.lookups@[k]).table.inner.index as int,
                        cs.lookups@[k].input.value(#[trigger] self.env(row)),
                    ),
            decreases cs.lookups@.len() - l,
        {
            let lookup = &cs.lookups[l];
            let mut row: usize = 0;
            while row < self.rows
                invariant
                    row <= self.rows,
                    l < cs.lookups@.len(),
                    *lookup == cs.lookups@[l as int],
                    self.well_formed(),
                    forall|i: int|
                        0 <= i < row ==> self.in_table(
                            lookup.table.inner.index as int,
                            lookup.input.value(#[trigger] self.env(i)),
                        ),
                decreases self.rows - row,
            {
                let v = self.evaluate(&lookup.input, row);
                if !self.table_contains(lookup.table.inner.index, &v) {
                    return Err(VerifyFailure::Lookup { lookup: l, row });
                }
                row += 1;
            }
            l += 1;
        }
        let mut k: usize = 0;
        while k < self.copies.len()
            invariant
                k <= self.copies@.len(),
                self.well_formed(),
                forall|i: int|
                    0 <= i < k ==> self.cell_value((#[trigger] self.copies@[i]).0)
                        == self.cell_value(self.copies@[i].1),
            decreases self.copies@.len() - k,
        {
            let pair = &self.copies[k];
            let a = self.value_of(&pair.0);
            let b = self.value_of(&pair.1);
            if !(a == b) {
                proof {
                    if a@ == b@ {
                        a.lemma_view_injective(b);
                    }
                }
                return Err(VerifyFailure::Permutation { copy: k });
            }
            k += 1;
        }
        Ok(())
    }
}

} // verus!
