//! The input table: what the program read, with the running sum that links
//! it to the processor table and the hash that binds it to the public
//! commitment.

use crate::bn256::fr::Fr;
use crate::code::values;
use crate::linkage::running_sum;
use crate::matrix::Matrix;
use crate::plonk::circuit::Advice;
use crate::plonk::circuit::Column;
use crate::plonk::circuit::FirstPhase;
use crate::plonk::circuit::SecondPhase;
use crate::plonk::circuit::Selector;
use crate::plonk::constraint_system::ConstraintSystem;
use crate::plonk::expression::Env;
use crate::plonk::witness::AssignedCell;
use crate::plonk::witness::Error;
use crate::plonk::witness::Witness;
use crate::poseidon_hash::input_message;
use crate::poseidon_hash::poseidon_hash;
use crate::poseidon_hash::reduces_to;
use crate::tables::running_sum::load_running_sum;
use crate::tables::running_sum::rs_gate;
use crate::tables::running_sum::rs_loaded_advice;
use crate::tables::running_sum::rs_loaded_selector;
use crate::tables::running_sum::running_sum_poly;
use crate::utils::BFChallenge;
use crate::utils::NIL_HASH_MSG;
use vstd::prelude::*;

verus! {

/// The columns and the selector of the input table.
#[derive(Clone, Copy, Debug)]
pub struct InputTableConfig {
    pub val: Column<Advice>,
    /// The running sum
    pub rs: Column<Advice>,
    /// The value hashed in place of an empty input. A stand-in: an input of
    /// this one value and no input at all have the same hash.
    pub nil_input_hash: Column<Advice>,
    pub s_rs: Selector,
    /// The hash of the input
    pub hash: Column<Advice>,
}

impl InputTableConfig {
    /// The columns lie as `configure` allocates them.
    pub open spec fn well_formed(self) -> bool {
        &&& self.nil_input_hash.index == self.val.index + 1
        &&& self.rs.index == self.val.index + 2
        &&& self.hash.index == self.val.index + 3
    }

    /// Allocates the columns and the selector of the table.
    pub fn configure(cs: &mut ConstraintSystem) -> (r: Self)
        requires
            old(cs).well_formed(),
            old(cs).num_advice_columns <= usize::MAX - 4,
            old(cs).num_selectors < usize::MAX,
        ensures
            r.well_formed(),
            r.val.index == old(cs).num_advice_columns,
            r.s_rs.0 == old(cs).num_selectors,
            final(cs).well_formed(),
            final(cs).phase_exists(0),
            final(cs).num_advice_columns == old(cs).num_advice_columns + 4,
            final(cs).num_selectors == old(cs).num_selectors + 1,
            final(cs).num_fixed_columns == old(cs).num_fixed_columns,
            final(cs).num_instance_columns == old(cs).num_instance_columns,
            final(cs).num_challenges == old(cs).num_challenges,
            final(cs).challenge_phase == old(cs).challenge_phase,
            final(cs).gates == old(cs).gates,
            final(cs).lookups == old(cs).lookups,
    {
        let val = cs.advice_column_in(FirstPhase);
        let nil_input_hash = cs.advice_column_in(FirstPhase);
        assert(cs.advice_column_phase@[val.index as int].0 == 0);
        let rs = cs.advice_column_in(SecondPhase);
        let hash = cs.advice_column_in(FirstPhase);
        cs.enable_equality(val.to_any());
        cs.enable_equality(nil_input_hash.to_any());
        cs.enable_equality(rs.to_any());
        cs.enable_equality(hash.to_any());
        assert(cs.advice_column_phase@[val.index as int].0 == 0);
        let s_rs = cs.selector();
        Self { val, rs, nil_input_hash, s_rs, hash }
    }

    /// Creates the running sum's gate.
    pub fn configure_second_phase(&self, cs: &mut ConstraintSystem, challenge: BFChallenge)
        ensures
            final(cs).same_columns(old(cs)),
            final(cs).lookups == old(cs).lookups,
            final(cs).permutation == old(cs).permutation,
            final(cs).gates@.len() == old(cs).gates@.len() + 1,
            forall|i: int|
                0 <= i < old(cs).gates@.len() ==> #[trigger] final(cs).gates@[i] == old(
                    cs,
                ).gates@[i],
            final(cs).gates@[old(cs).gates@.len() as int].polys@.len() == 1,
            forall|env: Env| #[trigger]
                final(cs).gates@[old(cs).gates@.len() as int].polys@[0].value(env) == rs_gate(
                    env,
                    self.val,
                    self.rs,
                    self.s_rs,
                    challenge.challenges@[10],
                ),
    {
        let poly = running_sum_poly(
            cs,
            self.val,
            self.rs,
            self.s_rs,
            challenge.get_input_rs_challenge(),
        );
        cs.create_gate("Input table should have correct running sum transition", vec![poly]);
        assert(cs.gates@[old(cs).gates@.len() as int].polys@[0] == poly);
    }

    /// The value of the running sum's challenge, as `witness` holds it.
    pub open spec fn gamma(witness: &Witness, challenge: BFChallenge) -> nat {
        witness.challenge_at(challenge.challenges@[10].index as int)
    }

    /// Whether `witness` has the challenge, columns, selector and rows that
    /// loading `matrix` needs.
    pub open spec fn fits(self, witness: &Witness, matrix: &Matrix, challenge: BFChallenge) -> bool {
        let len = matrix.input_matrix@.len();
        &&& challenge.challenges@[10].index < witness.challenges@.len()
        &&& self.hash.index < witness.advice@.len()
        &&& len < witness.rows
        &&& len > 0 ==> self.s_rs.0 < witness.selectors@.len()
    }

    /// What advice cell `(c, i)` holds after loading: the hash column holds
    /// `hash` in its first row and the sentinel column the sentinel; the
    /// value column holds the input and the sum column its running sums;
    /// every other cell is as `before`.
    pub open spec fn loaded_advice(
        self,
        before: &Witness,
        matrix: &Matrix,
        challenge: BFChallenge,
        hash: nat,
        c: int,
        i: int,
    ) -> nat {
        if c == self.hash.index && i == 0 {
            hash
        } else if c == self.nil_input_hash.index && i == 0 {
            NIL_HASH_MSG as nat
        } else if c == self.hash.index || c == self.nil_input_hash.index {
            before.advice_at(c, i)
        } else {
            rs_loaded_advice(
                before,
                self.val,
                self.rs,
                values(matrix.input_matrix@),
                Self::gamma(before, challenge),
                matrix.input_matrix@.len() as int,
                c,
                i,
            )
        }
    }

    /// Loads the input table of `matrix` into `witness`, computes the
    /// running sum and the hash of the input, and returns the cells that
    /// hold the hash and the final running sum, in this order.
    pub fn load_table<F: Fn([Fr; 2]) -> Result<Fr, Error>>(
        &self,
        witness: &mut Witness,
        matrix: &Matrix,
        challenge: BFChallenge,
        hasher: &F,
    ) -> (r: Result<(AssignedCell, AssignedCell), Error>)
        requires
            old(witness).well_formed(),
            self.well_formed(),
            forall|pair: [Fr; 2]| #[trigger] hasher.requires((pair,)),
        ensures
            final(witness).well_formed(),
            final(witness).rows == old(witness).rows,
            final(witness).advice@.len() == old(witness).advice@.len(),
            final(witness).selectors@.len() == old(witness).selectors@.len(),
            final(witness).fixed == old(witness).fixed,
            forall|c: int, i: int| #[trigger]
                final(witness).fixed_at(c, i) == old(witness).fixed_at(c, i),
            final(witness).instance == old(witness).instance,
            final(witness).challenges == old(witness).challenges,
            final(witness).copies == old(witness).copies,
            r.is_ok() ==> self.fits(old(witness), matrix, challenge),
            !self.fits(old(witness), matrix, challenge) ==> r == Err::<
                (AssignedCell, AssignedCell),
                Error,
            >(Error::BoundsFailure) || r == Err::<(AssignedCell, AssignedCell), Error>(
                Error::UnknownChallenge,
            ),
            match r {
                Err(e) => self.fits(old(witness), matrix, challenge) ==> exists|pair: [Fr; 2]| #[trigger]
                    hasher.ensures((pair,), Err::<Fr, Error>(e)),
                Ok(_) => true,
            },
            r.is_ok() ==> reduces_to(input_message(matrix.input_matrix@), hasher, r.unwrap().0.value)
                && r.unwrap().0.at(self.hash, 0 as int),
            r.is_ok() ==> r.unwrap().1.value@ == running_sum(
                values(matrix.input_matrix@),
                Self::gamma(old(witness), challenge),
            ) && r.unwrap().1.at(self.rs, matrix.input_matrix@.len() as int),
            r.is_ok() ==> forall|c: int, i: int| #[trigger]
                final(witness).advice_at(c, i) == self.loaded_advice(
                    old(witness),
                    matrix,
                    challenge,
                    r.unwrap().0.value@,
                    c,
                    i,
                ),
            r.is_ok() ==> forall|s: int, i: int| #[trigger]
                final(witness).selector_at(s, i) == rs_loaded_selector(
                    old(witness),
                    self.s_rs,
                    matrix.input_matrix@.len() as int,
                    s,
                    i,
                ),
    {
        let gamma = witness.get_challenge(challenge.get_input_rs_challenge())?;
        let nil = Fr::from_u64(NIL_HASH_MSG);
        witness.assign_advice(self.nil_input_hash, 0, nil)?;
        let rs = load_running_sum(
            witness,
            self.val,
            self.rs,
            self.s_rs,
            &matrix.input_matrix,
            gamma,
        )?;
        if self.hash.index >= witness.advice.len() {
            return Err(Error::BoundsFailure);
        }
        let mut message: Vec<Fr> = Vec::new();
        let mut k: usize = 0;
        while k < matrix.input_matrix.len()
            invariant
                k <= matrix.input_matrix@.len(),
                message@ == matrix.input_matrix@.take(k as int),
            decreases matrix.input_matrix@.len() - k,
        {
            message.push(matrix.input_matrix[k]);
            assert(matrix.input_matrix@.take(k + 1) =~= matrix.input_matrix@.take(k as int).push(
                matrix.input_matrix@[k as int],
            ));
            k += 1;
        }
        assert(matrix.input_matrix@.take(k as int) =~= matrix.input_matrix@);
        if message.len() == 0 {
            proof {
                Fr::lemma_from_nat_view(NIL_HASH_MSG as nat);
                nil.lemma_view_injective(Fr::from_nat(NIL_HASH_MSG as nat));
            }
            message.push(nil);
        }
        assert(message@ =~= input_message(matrix.input_matrix@));
        let output = match poseidon_hash(message, hasher) {
            Ok(v) => v,
            Err(e) => {
                return Err(e);
            },
        };
        let hash = witness.assign_advice(self.hash, 0, output)?;
        Ok((hash, rs))
    }
}

} // verus!
