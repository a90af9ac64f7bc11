//! The program table: the compiled program, with the running sum that
//! links it to the instruction table and the hash that binds it to the
//! public commitment.

use crate::bn256::fr::Fr;
use crate::code::values;
use crate::linkage::running_sum;
use crate::matrix::Matrix;
use crate::plonk::circuit::Advice;
use crate::plonk::circuit::Column;
use crate::plonk::circuit::FirstPhase;
use crate::plonk::circuit::SecondPhase;
use crate::plonk::circuit::Selector;
use crate::plonk::constraint_system::ConstraintSystem;
use crate::plonk::expression::Env;
use crate::plonk::witness::AssignedCell;
use crate::plonk::witness::Error;
use crate::plonk::witness::Witness;
use crate::poseidon_hash::poseidon_hash;
use crate::poseidon_hash::reduces_to;
use crate::tables::running_sum::load_running_sum;
use crate::tables::running_sum::rs_gate;
use crate::tables::running_sum::rs_loaded_advice;
use crate::tables::running_sum::rs_loaded_selector;
use crate::tables::running_sum::running_sum_poly;
use crate::utils::BFChallenge;
use vstd::prelude::*;

verus! {

/// The columns and the selector of the program table.
#[derive(Clone, Copy, Debug)]
pub struct ProgramTableConfig {
    pub code: Column<Advice>,
    /// The running sum
    pub code_rs: Column<Advice>,
    pub s_rs: Selector,
    /// The hash of the program
    pub hash: Column<Advice>,
}

impl ProgramTableConfig {
    /// The columns lie as `configure` allocates them.
    pub open spec fn well_formed(self) -> bool {
        &&& self.code_rs.index == self.code.index + 1
        &&& self.hash.index == self.code.index + 2
    }

    /// Allocates the columns and the selector of the table.
    pub fn configure(cs: &mut ConstraintSystem) -> (r: Self)
        requires
            old(cs).well_formed(),
            old(cs).num_advice_columns <= usize::MAX - 3,
            old(cs).num_selectors < usize::MAX,
        ensures
            r.well_formed(),
            r.code.index == old(cs).num_advice_columns,
            r.s_rs.0 == old(cs).num_selectors,
            final(cs).well_formed(),
            final(cs).phase_exists(0),
            final(cs).num_advice_columns == old(cs).num_advice_columns + 3,
            final(cs).num_selectors == old(cs).num_selectors + 1,
            final(cs).num_fixed_columns == old(cs).num_fixed_columns,
            final(cs).num_instance_columns == old(cs).num_instance_columns,
            final(cs).num_challenges == old(cs).num_challenges,
            final(cs).challenge_phase == old(cs).challenge_phase,
            final(cs).gates == old(cs).gates,
            final(cs).lookups == old(cs).lookups,
    {
        let code = cs.advice_column_in(FirstPhase);
        assert(cs.advice_column_phase@[code.index as int].0 == 0);
        let code_rs = cs.advice_column_in(SecondPhase);
        let hash = cs.advice_column_in(FirstPhase);
        let s_rs = cs.selector();
        cs.enable_equality(code.to_any());
        cs.enable_equality(code_rs.to_any());
        cs.enable_equality(hash.to_any());
        assert(cs.advice_column_phase@[code.index as int].0 == 0);
        Self { code, code_rs, s_rs, hash }
    }

    /// Creates the running sum's gate.
    pub fn configure_second_phase(&self, cs: &mut ConstraintSystem, challenges: BFChallenge)
        ensures
            final(cs).same_columns(old(cs)),
            final(cs).lookups == old(cs).lookups,
            final(cs).permutation == old(cs).permutation,
            final(cs).gates@.len() == old(cs).gates@.len() + 1,
            forall|i: int|
                0 <= i < old(cs).gates@.len() ==> #[trigger] final(cs).gates@[i] == old(
                    cs,
                ).gates@[i],
            final(cs).gates@[old(cs).gates@.len() as int].polys@.len() == 1,
            forall|env: Env| #[trigger]
                final(cs).gates@[old(cs).gates@.len() as int].polys@[0].value(env) == rs_gate(
                    env,
                    self.code,
                    self.code_rs,
                    self.s_rs,
                    challenges.challenges@[8],
                ),
    {
        let poly = running_sum_poly(
            cs,
            self.code,
            self.code_rs,
            self.s_rs,
            challenges.get_inst_rs_challenges(),
        );
        cs.create_gate("Program table rs should have valid transition", vec![poly]);
        assert(cs.gates@[old(cs).gates@.len() as int].polys@[0] == poly);
    }

    /// The value of the running sum's challenge, as `witness` holds it.
    pub open spec fn gamma(witness: &Witness, challenges: BFChallenge) -> nat {
        witness.challenge_at(challenges.challenges@[8].index as int)
    }

    /// Whether `witness` has the challenge, columns, selector and rows that
    /// loading `matrix` needs.
    pub open spec fn fits(self, witness: &Witness, matrix: &Matrix, challenges: BFChallenge) -> bool {
        let len = matrix.program@.len();
        &&& challenges.challenges@[8].index < witness.challenges@.len()
        &&& self.hash.index < witness.advice@.len()
        &&& len < witness.rows
        &&& self.s_rs.0 < witness.selectors@.len()
    }

    /// What advice cell `(c, i)` holds after loading: the hash column holds
    /// `hash` in its first row; the code column holds the program and the
    /// sum column its running sums; every other cell is as `before`.
    pub open spec fn loaded_advice(
        self,
        before: &Witness,
        matrix: &Matrix,
        challenges: BFChallenge,
        hash: nat,
        c: int,
        i: int,
    ) -> nat {
        if c == self.hash.index && i == 0 {
            hash
        } else if c == self.hash.index {
            before.advice_at(c, i)
        } else {
            rs_loaded_advice(
                before,
                self.code,
                self.code_rs,
                values(matrix.program@),
                Self::gamma(before, challenges),
                matrix.program@.len() as int,
                c,
                i,
            )
        }
    }

    /// Loads the program of `matrix` into `witness`, computes the running
    /// sum and the hash of the program, and returns the cells that hold the
    /// hash and the final running sum, in this order.
    pub fn load_table<F: Fn([Fr; 2]) -> Result<Fr, Error>>(
        &self,
        witness: &mut Witness,
        matrix: &Matrix,
        challenges: BFChallenge,
        hasher: &F,
    ) -> (r: Result<(AssignedCell, AssignedCell), Error>)
        requires
            old(witness).well_formed(),
            self.well_formed(),
            matrix.program@.len() > 0,
            forall|pair: [Fr; 2]| #[trigger] hasher.requires((pair,)),
        ensures
            final(witness).well_formed(),
            final(witness).rows == old(witness).rows,
            final(witness).advice@.len() == old(witness).advice@.len(),
            final(witness).selectors@.len() == old(witness).selectors@.len(),
            final(witness).fixed == old(witness).fixed,
            forall|c: int, i: int| #[trigger]
                final(witness).fixed_at(c, i) == old(witness).fixed_at(c, i),
            final(witness).instance == old(witness).instance,
            final(witness).challenges == old(witness).challenges,
            final(witness).copies == old(witness).copies,
            r.is_ok() ==> self.fits(old(witness), matrix, challenges),
            !self.fits(old(witness), matrix, challenges) ==> r == Err::<
                (AssignedCell, AssignedCell),
                Error,
            >(Error::BoundsFailure) || r == Err::<(AssignedCell, AssignedCell), Error>(
                Error::UnknownChallenge,
            ),
            match r {
                Err(e) => self.fits(old(witness), matrix, challenges) ==> exists|pair: [Fr; 2]| #[trigger]
                    hasher.ensures((pair,), Err::<Fr, Error>(e)),
                Ok(_) => true,
            },
            r.is_ok() ==> reduces_to(matrix.program@, hasher, r.unwrap().0.value)
                && r.unwrap().0.at(self.hash, 0 as int),
            r.is_ok() ==> r.unwrap().1.value@ == running_sum(
                values(matrix.program@),
                Self::gamma(old(witness), challenges),
            ) && r.unwrap().1.at(self.code_rs, matrix.program@.len() as int),
            r.is_ok() ==> forall|c: int, i: int| #[trigger]
                final(witness).advice_at(c, i) == self.loaded_advice(
                    old(witness),
                    matrix,
                    challenges,
                    r.unwrap().0.value@,
                    c,
                    i,
                ),
            r.is_ok() ==> forall|s: int, i: int| #[trigger]
                final(witness).selector_at(s, i) == rs_loaded_selector(
                    old(witness),
                    self.s_rs,
                    matrix.program@.len() as int,
                    s,
                    i,
                ),
    {
        let gamma = witness.get_challenge(challenges.get_inst_rs_challenges())?;
        let rs = load_running_sum(
            witness,
            self.code,
            self.code_rs,
            self.s_rs,
            &matrix.program,
            gamma,
        )?;
        if self.hash.index >= witness.advice.len() {
            return Err(Error::BoundsFailure);
        }
        let mut message: Vec<Fr> = Vec::new();
        let mut k: usize = 0;
        while k < matrix.program.len()
            invariant
                k <= matrix.program@.len(),
                message@ == matrix.program@.take(k as int),
            decreases matrix.program@.len() - k,
        {
            message.push(matrix.program[k]);
            assert(matrix.program@.take(k + 1) =~= matrix.program@.take(k as int).push(
                matrix.program@[k as int],
            ));
            k += 1;
        }
        assert(matrix.program@.take(k as int) =~= matrix.program@);
        let output = match poseidon_hash(message, hasher) {
            Ok(v) => v,
            Err(e) => {
                return Err(e);
            },
        };
        let hash = witness.assign_advice(self.hash, 0, output)?;
        Ok((hash, rs))
    }
}

} // verus!
