//! The lookup table of the values a memory cell may hold.

use crate::bn256::fr::Fr;
use crate::plonk::circuit::TableColumn;
use crate::plonk::constraint_system::ConstraintSystem;
use crate::plonk::witness::Error;
use crate::plonk::witness::Witness;
use vstd::prelude::*;

verus! {

/// The table `0, 1, .., range - 1` in one fixed column.
#[derive(Clone, Copy, Debug)]
pub struct RangeTableConfig {
    pub table: TableColumn,
    pub range: usize,
}

impl RangeTableConfig {
    /// Allocates the table's column.
    pub fn configure(cs: &mut ConstraintSystem, range: usize) -> (r: Self)
        requires
            old(cs).num_fixed_columns < usize::MAX,
        ensures
            r.range == range,
            r.table.inner.index == old(cs).num_fixed_columns,
            final(cs).num_fixed_columns == old(cs).num_fixed_columns + 1,
            final(cs).num_selectors == old(cs).num_selectors,
            final(cs).num_advice_columns == old(cs).num_advice_columns,
            final(cs).num_instance_columns == old(cs).num_instance_columns,
            final(cs).num_challenges == old(cs).num_challenges,
            final(cs).advice_column_phase == old(cs).advice_column_phase,
            final(cs).challenge_phase == old(cs).challenge_phase,
            final(cs).same_constraints(old(cs)),
    {
        let table = cs.lookup_table_column();
        Self { table, range }
    }

    /// Writes `0, 1, .., range - 1` into the first rows of the column. The
    /// rows after them keep their value, which is zero in a new assignment.
    pub fn load_table(&self, witness: &mut Witness) -> (r: Result<(), Error>)
        requires
            old(witness).well_formed(),
        ensures
            final(witness).well_formed(),
            final(witness).rows == old(witness).rows,
            final(witness).advice == old(witness).advice,
            forall|c: int, i: int| #[trigger] final(witness).advice_at(c, i) == old(witness).advice_at(c, i),
            final(witness).instance == old(witness).instance,
            final(witness).selectors == old(witness).selectors,
            forall|c: int, i: int| #[trigger] final(witness).selector_at(c, i) == old(witness).selector_at(c, i),
            final(witness).challenges == old(witness).challenges,
            final(witness).copies == old(witness).copies,
            final(witness).fixed@.len() == old(witness).fixed@.len(),
            r.is_ok() <==> self.table.inner.index < old(witness).fixed@.len() && self.range <= old(
                witness,
            ).rows,
            r.is_err() ==> r == Err::<(), Error>(Error::BoundsFailure),
            r.is_ok() ==> forall|c: int, i: int| #[trigger]
                final(witness).fixed_at(c, i) == if c == self.table.inner.index && 0 <= i
                    < self.range {
                    i as nat
                } else {
                    old(witness).fixed_at(c, i)
                },
    {
        if self.table.inner.index >= witness.fixed.len() || self.range > witness.rows {
            return Err(Error::BoundsFailure);
        }
        let mut value: usize = 0;
        while value < self.range
            invariant
                value <= self.range,
                self.table.inner.index < old(witness).fixed@.len(),
                self.range <= old(witness).rows,
                witness.well_formed(),
                witness.rows == old(witness).rows,
                witness.advice == old(witness).advice,
                witness.instance == old(witness).instance,
                witness.selectors == old(witness).selectors,
                witness.challenges == old(witness).challenges,
                witness.copies == old(witness).copies,
                witness.fixed@.len() == old(witness).fixed@.len(),
                forall|c: int, i: int| #[trigger]
                    witness.fixed_at(c, i) == if c == self.table.inner.index && 0 <= i < value {
                        i as nat
                    } else {
                        old(witness).fixed_at(c, i)
                    },
            decreases self.range - value,
        {
            let assigned = witness.assign_fixed(
                self.table.inner,
                value,
                Fr::from_u64(value as u64),
            );
            assert(assigned.is_ok());
            value += 1;
        }
        Ok(())
    }
}

} // verus!
