//! The output table: what the program wrote, with the running sum that
//! links it to the processor table.

use crate::code::values;
use crate::linkage::running_sum;
use crate::matrix::Matrix;
use crate::plonk::circuit::Advice;
use crate::plonk::circuit::Column;
use crate::plonk::circuit::FirstPhase;
use crate::plonk::circuit::SecondPhase;
use crate::plonk::circuit::Selector;
use crate::plonk::constraint_system::ConstraintSystem;
use crate::plonk::expression::Env;
use crate::plonk::witness::AssignedCell;
use crate::plonk::witness::Error;
use crate::plonk::witness::Witness;
use crate::tables::running_sum::load_running_sum;
use crate::tables::running_sum::rs_fits;
use crate::tables::running_sum::rs_gate;
use crate::tables::running_sum::rs_loaded_advice;
use crate::tables::running_sum::rs_loaded_selector;
use crate::tables::running_sum::running_sum_poly;
use crate::utils::BFChallenge;
use vstd::prelude::*;

verus! {

/// The columns and the selector of the output table.
#[derive(Clone, Copy, Debug)]
pub struct OutputTableConfig {
    pub val: Column<Advice>,
    /// The running sum
    pub rs: Column<Advice>,
    pub s_rs: Selector,
}

impl OutputTableConfig {
    /// The columns lie as `configure` allocates them.
    pub open spec fn well_formed(self) -> bool {
        self.rs.index == self.val.index + 1
    }

    /// Allocates the columns and the selector of the table.
    pub fn configure(cs: &mut ConstraintSystem) -> (r: Self)
        requires
            old(cs).well_formed(),
            old(cs).num_advice_columns <= usize::MAX - 2,
            old(cs).num_selectors < usize::MAX,
        ensures
            r.well_formed(),
            r.val.index == old(cs).num_advice_columns,
            r.s_rs.0 == old(cs).num_selectors,
            final(cs).well_formed(),
            final(cs).phase_exists(0),
            final(cs).num_advice_columns == old(cs).num_advice_columns + 2,
            final(cs).num_selectors == old(cs).num_selectors + 1,
            final(cs).num_fixed_columns == old(cs).num_fixed_columns,
            final(cs).num_instance_columns == old(cs).num_instance_columns,
            final(cs).num_challenges == old(cs).num_challenges,
            final(cs).challenge_phase == old(cs).challenge_phase,
            final(cs).gates == old(cs).gates,
            final(cs).lookups == old(cs).lookups,
    {
        let val = cs.advice_column_in(FirstPhase);
        assert(cs.advice_column_phase@[val.index as int].0 == 0);
        let rs = cs.advice_column_in(SecondPhase);
        cs.enable_equality(rs.to_any());
        assert(cs.advice_column_phase@[val.index as int].0 == 0);
        let s_rs = cs.selector();
        Self { val, rs, s_rs }
    }

    /// Creates the running sum's gate.
    pub fn configure_second_phase(self, cs: &mut ConstraintSystem, challenge: BFChallenge)
        ensures
            final(cs).same_columns(old(cs)),
            final(cs).lookups == old(cs).lookups,
            final(cs).permutation == old(cs).permutation,
            final(cs).gates@.len() == old(cs).gates@.len() + 1,
            forall|i: int|
                0 <= i < old(cs).gates@.len() ==> #[trigger] final(cs).gates@[i] == old(
                    cs,
                ).gates@[i],
            final(cs).gates@[old(cs).gates@.len() as int].polys@.len() == 1,
            forall|env: Env| #[trigger]
                final(cs).gates@[old(cs).gates@.len() as int].polys@[0].value(env) == rs_gate(
                    env,
                    self.val,
                    self.rs,
                    self.s_rs,
                    challenge.challenges@[9],
                ),
    {
        let poly = running_sum_poly(
            cs,
            self.val,
            self.rs,
            self.s_rs,
            challenge.get_output_rs_challenge(),
        );
        cs.create_gate("Output table should have correct running sum transition", vec![poly]);
        assert(cs.gates@[old(cs).gates@.len() as int].polys@[0] == poly);
    }

    /// The value of the running sum's challenge, as `witness` holds it.
    pub open spec fn gamma(witness: &Witness, challenge: BFChallenge) -> nat {
        witness.challenge_at(challenge.challenges@[9].index as int)
    }

    /// Whether `witness` has the challenge, columns, selector and rows that
    /// loading `matrix` needs.
    pub open spec fn fits(self, witness: &Witness, matrix: &Matrix, challenge: BFChallenge) -> bool {
        &&& challenge.challenges@[9].index < witness.challenges@.len()
        &&& rs_fits(witness, self.val, self.rs, self.s_rs, matrix.output_matrix@.len() as int)
    }

    /// Loads the output table of `matrix` into `witness`, computes the
    /// running sum and returns the cell that holds its final value.
    pub fn load_table(&self, witness: &mut Witness, matrix: &Matrix, challenge: BFChallenge) -> (r:
        Result<AssignedCell, Error>)
        requires
            old(witness).well_formed(),
            self.well_formed(),
        ensures
            final(witness).well_formed(),
            final(witness).rows == old(witness).rows,
            final(witness).advice@.len() == old(witness).advice@.len(),
            final(witness).selectors@.len() == old(witness).selectors@.len(),
            final(witness).fixed == old(witness).fixed,
            forall|c: int, i: int| #[trigger]
                final(witness).fixed_at(c, i) == old(witness).fixed_at(c, i),
            final(witness).instance == old(witness).instance,
            final(witness).challenges == old(witness).challenges,
            final(witness).copies == old(witness).copies,
            r.is_ok() <==> self.fits(old(witness), matrix, challenge),
            r.is_ok() ==> r.unwrap().value@ == running_sum(
                values(matrix.output_matrix@),
                Self::gamma(old(witness), challenge),
            ) && r.unwrap().at(self.rs, matrix.output_matrix@.len() as int),
            r.is_ok() ==> forall|c: int, i: int| #[trigger]
                final(witness).advice_at(c, i) == rs_loaded_advice(
                    old(witness),
                    self.val,
                    self.rs,
                    values(matrix.output_matrix@),
                    Self::gamma(old(witness), challenge),
                    matrix.output_matrix@.len() as int,
                    c,
                    i,
                ),
            r.is_ok() ==> forall|s: int, i: int| #[trigger]
                final(witness).selector_at(s, i) == rs_loaded_selector(
                    old(witness),
                    self.s_rs,
                    matrix.output_matrix@.len() as int,
                    s,
                    i,
                ),
    {
        let gamma = witness.get_challenge(challenge.get_output_rs_challenge())?;
        load_running_sum(witness, self.val, self.rs, self.s_rs, &matrix.output_matrix, gamma)
    }
}

} // verus!
