//! The memory table: the memory columns of every cycle, sorted by memory
//! pointer, with the constraints that make memory behave like memory and
//! the running product that links it to the processor table.

use crate::bn256::fr::fr_mul;
use crate::bn256::fr::fr_sub;
use crate::bn256::fr::Fr;
use crate::linkage::memory_prp;
use crate::linkage::prp_step;
use crate::linkage::PrpChallenges;
use crate::matrix::Matrix;
use crate::matrix::MemoryMatrixRow;
use crate::plonk::circuit::Advice;
use crate::plonk::circuit::Challenge;
use crate::plonk::circuit::Column;
use crate::plonk::circuit::FirstPhase;
use crate::plonk::circuit::SecondPhase;
use crate::plonk::circuit::Selector;
use crate::plonk::constraint_system::ConstraintSystem;
use crate::plonk::expression::Env;
use crate::plonk::expression::Expression;
use crate::plonk::witness::AssignedCell;
use crate::plonk::witness::Error;
use crate::plonk::witness::Witness;
use crate::poly::Rotation;
use crate::utils::adv;
use crate::utils::chal;
use crate::utils::sel;
use crate::utils::PrpValues;
use vstd::prelude::*;

verus! {

/// The seed and the four challenges of a permutation running product.
#[derive(Clone, Copy, Debug)]
pub struct PrpArg {
    pub init: Fr,
    pub challenges: [Challenge; 4],
}

impl PrpArg {
    /// The values that `witness` holds for the four challenges.
    pub open spec fn values(self, witness: &Witness) -> PrpChallenges {
        PrpChallenges {
            alpha: witness.challenge_at(self.challenges@[0].index as int),
            d: witness.challenge_at(self.challenges@[1].index as int),
            e: witness.challenge_at(self.challenges@[2].index as int),
            f: witness.challenge_at(self.challenges@[3].index as int),
        }
    }

    /// The values of the four challenges in `env`.
    pub open spec fn values_in(self, env: Env) -> PrpChallenges {
        PrpChallenges {
            alpha: chal(env, self.challenges@[0]),
            d: chal(env, self.challenges@[1]),
            e: chal(env, self.challenges@[2]),
            f: chal(env, self.challenges@[3]),
        }
    }
}

/// The columns and selectors of the memory table.
#[derive(Clone, Copy, Debug)]
pub struct MemoryTableConfig {
    pub clk: Column<Advice>,
    pub mp: Column<Advice>,
    pub mv: Column<Advice>,
    pub prp: Column<Advice>,
    /// Selector for the transition constraints
    pub s_m: Selector,
    /// Selector for the running product
    pub s_prp: Selector,
}

impl MemoryTableConfig {
    /// The columns and selectors lie as `configure` allocates them.
    pub open spec fn well_formed(self) -> bool {
        &&& self.mp.index == self.clk.index + 1
        &&& self.mv.index == self.clk.index + 2
        &&& self.prp.index == self.clk.index + 3
        &&& self.s_prp.0 == self.s_m.0 + 1
    }

    /// How far the memory pointer moved to the next row.
    pub open spec fn mp_step(self, env: Env) -> nat {
        fr_sub(adv(env, self.mp, 1), adv(env, self.mp, 0))
    }

    /// M0: the memory pointer increases by one or by zero.
    pub open spec fn m0(self, env: Env) -> nat {
        fr_mul(fr_mul(sel(env, self.s_m), fr_sub(self.mp_step(env), 1)), self.mp_step(env))
    }

    /// M1: where the memory pointer stays and the memory value changes, the
    /// clock increases by exactly one: a cell changes only under the
    /// instruction that is executed on it.
    pub open spec fn m1(self, env: Env) -> nat {
        fr_mul(
            fr_mul(
                fr_mul(sel(env, self.s_m), fr_sub(self.mp_step(env), 1)),
                fr_sub(adv(env, self.mv, 0), adv(env, self.mv, 1)),
            ),
            fr_sub(fr_sub(adv(env, self.clk, 1), adv(env, self.clk, 0)), 1),
        )
    }

    /// M2: where the memory pointer increases, the next memory value is
    /// zero.
    pub open spec fn m2(self, env: Env) -> nat {
        fr_mul(fr_mul(sel(env, self.s_m), self.mp_step(env)), adv(env, self.mv, 1))
    }

    /// The running product takes one factor per row:
    /// `prp' = prp * (alpha - d*clk - e*mp - f*mv)`.
    pub open spec fn prp_gate(self, env: Env, prp_arg: PrpArg) -> nat {
        fr_mul(
            sel(env, self.s_prp),
            fr_sub(
                adv(env, self.prp, 1),
                prp_step(
                    prp_arg.values_in(env),
                    adv(env, self.prp, 0),
                    adv(env, self.clk, 0),
                    adv(env, self.mp, 0),
                    adv(env, self.mv, 0),
                ),
            ),
        )
    }

    /// The value in `env` of the polynomial of the `k`-th gate that
    /// `configure` creates.
    pub open spec fn gate(self, k: int, env: Env) -> nat {
        if k == 0 {
            self.m0(env)
        } else if k == 1 {
            self.m1(env)
        } else {
            self.m2(env)
        }
    }

    /// The polynomial of M0.
    fn m0_poly(&self, cs: &mut ConstraintSystem) -> (r: Expression)
        ensures
            forall|env: Env| #[trigger] r.value(env) == self.m0(env),
            final(cs).same_columns(old(cs)),
            final(cs).same_constraints(old(cs)),
    {
        let one = Expression::constant(Fr::one());
        let cur_mp = cs.query_advice(self.mp, Rotation::cur());
        let next_mp = cs.query_advice(self.mp, Rotation::next());
        let s_m = cs.query_selector(self.s_m);
        s_m.mul(next_mp.clone().sub(cur_mp.clone()).sub(one.clone())).mul(
            next_mp.clone().sub(cur_mp.clone()),
        )
    }

    /// The polynomial of M1.
    fn m1_poly(&self, cs: &mut ConstraintSystem) -> (r: Expression)
        ensures
            forall|env: Env| #[trigger] r.value(env) == self.m1(env),
            final(cs).same_columns(old(cs)),
            final(cs).same_constraints(old(cs)),
    {
        let one = Expression::constant(Fr::one());
        let cur_mp = cs.query_advice(self.mp, Rotation::cur());
        let next_mp = cs.query_advice(self.mp, Rotation::next());
        let cur_mv = cs.query_advice(self.mv, Rotation::cur());
        let next_mv = cs.query_advice(self.mv, Rotation::next());
        let cur_clk = cs.query_advice(self.clk, Rotation::cur());
        let next_clk = cs.query_advice(self.clk, Rotation::next());
        let s_m = cs.query_selector(self.s_m);
        s_m.mul(next_mp.clone().sub(cur_mp.clone()).sub(one.clone())).mul(
            cur_mv.clone().sub(next_mv.clone()),
        ).mul(next_clk.sub(cur_clk.clone()).sub(one.clone()))
    }

    /// The polynomial of M2.
    fn m2_poly(&self, cs: &mut ConstraintSystem) -> (r: Expression)
        ensures
            forall|env: Env| #[trigger] r.value(env) == self.m2(env),
            final(cs).same_columns(old(cs)),
            final(cs).same_constraints(old(cs)),
    {
        let cur_mp = cs.query_advice(self.mp, Rotation::cur());
        let next_mp = cs.query_advice(self.mp, Rotation::next());
        let next_mv = cs.query_advice(self.mv, Rotation::next());
        let s_m = cs.query_selector(self.s_m);
        s_m.mul(next_mp.clone().sub(cur_mp.clone())).mul(next_mv)
    }

    /// Allocates the columns and selectors of the table and creates its
    /// three transition gates.
    pub fn configure(cs: &mut ConstraintSystem) -> (r: Self)
        requires
            old(cs).well_formed(),
            old(cs).num_advice_columns <= usize::MAX - 4,
            old(cs).num_selectors <= usize::MAX - 2,
        ensures
            r.well_formed(),
            r.clk.index == old(cs).num_advice_columns,
            r.s_m.0 == old(cs).num_selectors,
            final(cs).well_formed(),
            final(cs).phase_exists(0),
            final(cs).phase_exists(1),
            final(cs).num_advice_columns == old(cs).num_advice_columns + 4,
            final(cs).num_selectors == old(cs).num_selectors + 2,
            final(cs).num_fixed_columns == old(cs).num_fixed_columns,
            final(cs).num_instance_columns == old(cs).num_instance_columns,
            final(cs).num_challenges == old(cs).num_challenges,
            final(cs).challenge_phase == old(cs).challenge_phase,
            final(cs).lookups == old(cs).lookups,
            final(cs).gates@.len() == old(cs).gates@.len() + 3,
            forall|i: int|
                0 <= i < old(cs).gates@.len() ==> #[trigger] final(cs).gates@[i] == old(
                    cs,
                ).gates@[i],
            forall|k: int|
                0 <= k < 3 ==> (#[trigger] final(cs).gates@[old(cs).gates@.len() + k]).polys@.len()
                    == 1,
            forall|k: int, env: Env|
                0 <= k < 3 ==> #[trigger] final(cs).gates@[old(cs).gates@.len() + k].polys@[0].value(
                    env,
                ) == r.gate(k, env),
    {
        let ghost gates0 = cs.gates@;
        let clk = cs.advice_column_in(FirstPhase);
        let mp = cs.advice_column_in(FirstPhase);
        let mv = cs.advice_column_in(FirstPhase);
        assert(cs.advice_column_phase@[clk.index as int].0 == 0);
        let prp = cs.advice_column_in(SecondPhase);
        cs.enable_equality(prp.to_any());
        assert(cs.advice_column_phase@[clk.index as int].0 == 0);
        assert(cs.advice_column_phase@[prp.index as int].0 == 1);
        let s_m = cs.selector();
        let s_prp = cs.selector();
        let config = Self { clk, mp, mv, prp, s_m, s_prp };
        let m0 = config.m0_poly(cs);
        cs.create_gate("M0: memory pointer either increase by one or by zero", vec![m0]);
        let m1 = config.m1_poly(cs);
        cs.create_gate(
            "M1: If mp stays the same and mv changes, clk must increase by one",
            vec![m1],
        );
        let m2 = config.m2_poly(cs);
        cs.create_gate("M2: If mp increases by 1, then mv must be set to zero.", vec![m2]);
        proof {
            let base = gates0.len() as int;
            assert(cs.gates@[base].polys@[0] == m0);
            assert(cs.gates@[base + 1].polys@[0] == m1);
            assert(cs.gates@[base + 2].polys@[0] == m2);
        }
        config
    }

    /// Creates the running product's gate.
    pub fn configure_prp(self, cs: &mut ConstraintSystem, prp_arg: PrpArg)
        ensures
            final(cs).same_columns(old(cs)),
            final(cs).lookups == old(cs).lookups,
            final(cs).permutation == old(cs).permutation,
            final(cs).gates@.len() == old(cs).gates@.len() + 1,
            forall|i: int|
                0 <= i < old(cs).gates@.len() ==> #[trigger] final(cs).gates@[i] == old(
                    cs,
                ).gates@[i],
            final(cs).gates@[old(cs).gates@.len() as int].polys@.len() == 1,
            forall|env: Env| #[trigger]
                final(cs).gates@[old(cs).gates@.len() as int].polys@[0].value(env) == self.prp_gate(
                    env,
                    prp_arg,
                ),
    {
        let clk = cs.query_advice(self.clk, Rotation::cur());
        let mp = cs.query_advice(self.mp, Rotation::cur());
        let mv = cs.query_advice(self.mv, Rotation::cur());
        let prp_cur = cs.query_advice(self.prp, Rotation::cur());
        let prp_next = cs.query_advice(self.prp, Rotation::next());
        let s_prp = cs.query_selector(self.s_prp);
        let alpha = cs.query_challenge(prp_arg.challenges[0]);
        let d = cs.query_challenge(prp_arg.challenges[1]);
        let e = cs.query_challenge(prp_arg.challenges[2]);
        let f = cs.query_challenge(prp_arg.challenges[3]);
        let poly = s_prp.mul(
            prp_next.sub(prp_cur.mul(alpha.sub(d.mul(clk)).sub(e.mul(mp)).sub(f.mul(mv)))),
        );
        cs.create_gate("Memory prp should have valid transition", vec![poly]);
        assert(cs.gates@[old(cs).gates@.len() as int].polys@[0] == poly);
    }

    /// What advice cell `(c, i)` holds once the first `n` rows of `rows` are
    /// loaded: the three memory columns hold the rows; the running product
    /// column holds at row `i` the product over the first `i` rows; every
    /// other cell is as `before`.
    pub open spec fn loaded_advice(
        self,
        before: &Witness,
        rows: Seq<MemoryMatrixRow>,
        init: nat,
        ch: PrpChallenges,
        n: int,
        c: int,
        i: int,
    ) -> nat {
        if c == self.clk.index && 0 <= i < n {
            rows[i].cycle@
        } else if c == self.mp.index && 0 <= i < n {
            rows[i].memory_pointer@
        } else if c == self.mv.index && 0 <= i < n {
            rows[i].memory_value@
        } else if c == self.prp.index && 0 <= i <= n {
            memory_prp(rows.take(i), init, ch)
        } else {
            before.advice_at(c, i)
        }
    }

    /// What selector `s` is on row `i` once the first `n` of `len` rows are
    /// loaded: the transition selector is enabled on every loaded row but
    /// the last of the table, the running product selector on every loaded
    /// row; every other selector is as `before`.
    pub open spec fn loaded_selector(self, before: &Witness, len: int, n: int, s: int, i: int) -> nat {
        if s == self.s_m.0 && 0 <= i < n && i + 1 < len {
            1
        } else if s == self.s_prp.0 && 0 <= i < n {
            1
        } else {
            before.selector_at(s, i)
        }
    }

    /// Whether `witness` has the challenges, columns, selectors and rows
    /// that loading `matrix` needs.
    pub open spec fn fits(self, witness: &Witness, matrix: &Matrix, prp_arg: PrpArg) -> bool {
        let len = matrix.memory_matrix@.len();
        &&& forall|k: int|
            0 <= k < 4 ==> (#[trigger] prp_arg.challenges@[k]).index < witness.challenges@.len()
        &&& self.prp.index < witness.advice@.len()
        &&& len < witness.rows
        &&& len > 0 ==> self.s_prp.0 < witness.selectors@.len()
    }

    /// Whether advice column `c` belongs to this table.
    pub open spec fn owns(self, c: int) -> bool {
        self.clk.index <= c <= self.prp.index
    }

    /// Whether selector `s` belongs to this table.
    pub open spec fn owns_selector(self, s: int) -> bool {
        self.s_m.0 <= s <= self.s_prp.0
    }

    /// `w` holds the memory table of `matrix` as loading it into `before`
    /// leaves it, whatever `w` holds elsewhere.
    pub open spec fn shows(self, w: &Witness, before: &Witness, matrix: &Matrix, prp_arg: PrpArg) -> bool {
        let rows = matrix.memory_matrix@;
        let len = rows.len() as int;
        &&& forall|c: int, i: int|
            self.owns(c) ==> #[trigger] w.advice_at(c, i) == self.loaded_advice(
                before,
                rows,
                prp_arg.init@,
                prp_arg.values(before),
                len,
                c,
                i,
            )
        &&& forall|s: int, i: int|
            self.owns_selector(s) ==> #[trigger] w.selector_at(s, i) == self.loaded_selector(
                before,
                len,
                len,
                s,
                i,
            )
    }

    /// `after` is `before` with the memory table of `matrix` loaded.
    pub open spec fn loaded(self, before: &Witness, after: &Witness, matrix: &Matrix, prp_arg: PrpArg) -> bool {
        let rows = matrix.memory_matrix@;
        let len = rows.len() as int;
        &&& forall|c: int, i: int| #[trigger]
            after.advice_at(c, i) == self.loaded_advice(
                before,
                rows,
                prp_arg.init@,
                prp_arg.values(before),
                len,
                c,
                i,
            )
        &&& forall|s: int, i: int| #[trigger]
            after.selector_at(s, i) == self.loaded_selector(before, len, len, s, i)
    }

    /// Loads row `idx` of the table: enables its selectors, writes its three
    /// columns, and writes the running product after it into the next row.
    /// `last` says whether it is the last row of the table.
    fn load_row(
        &self,
        witness: &mut Witness,
        row: &MemoryMatrixRow,
        idx: usize,
        last: bool,
        prp: Fr,
    ) -> (r: Result<AssignedCell, Error>)
        requires
            old(witness).well_formed(),
            self.well_formed(),
        ensures
            final(witness).well_formed(),
            final(witness).rows == old(witness).rows,
            final(witness).advice@.len() == old(witness).advice@.len(),
            final(witness).selectors@.len() == old(witness).selectors@.len(),
            final(witness).fixed == old(witness).fixed,
            final(witness).instance == old(witness).instance,
            final(witness).challenges == old(witness).challenges,
            final(witness).copies == old(witness).copies,
            r.is_ok() <==> idx + 1 < old(witness).rows && self.prp.index < old(
                witness,
            ).advice@.len() && self.s_prp.0 < old(witness).selectors@.len(),
            r.is_ok() ==> r.unwrap().value == prp && r.unwrap().at(self.prp, idx + 1),
            r.is_ok() ==> forall|c: int, i: int| #[trigger]
                final(witness).advice_at(c, i) == if i == idx && c == self.clk.index {
                    row.cycle@
                } else if i == idx && c == self.mp.index {
                    row.memory_pointer@
                } else if i == idx && c == self.mv.index {
                    row.memory_value@
                } else if i == idx + 1 && c == self.prp.index {
                    prp@
                } else {
                    old(witness).advice_at(c, i)
                },
            r.is_ok() ==> forall|s: int, i: int| #[trigger]
                final(witness).selector_at(s, i) == if i == idx && (s == self.s_prp.0 || (!last
                    && s == self.s_m.0)) {
                    1
                } else {
                    old(witness).selector_at(s, i)
                },
    {
        if !last {
            // M condition is enabled except last row
            witness.enable_selector(&self.s_m, idx)?;
        }
        witness.enable_selector(&self.s_prp, idx)?;
        witness.assign_advice(self.clk, idx, row.cycle)?;
        witness.assign_advice(self.mp, idx, row.memory_pointer)?;
        witness.assign_advice(self.mv, idx, row.memory_value)?;
        if idx + 1 >= witness.rows {
            return Err(Error::BoundsFailure);
        }
        witness.assign_advice(self.prp, idx + 1, prp)
    }

    /// Loads the memory table of `matrix` into `witness`, computes the
    /// running product and returns the cell that holds its final value.
    pub fn load_table(&self, witness: &mut Witness, matrix: &Matrix, prp_arg: PrpArg) -> (r: Result<
        AssignedCell,
        Error,
    >)
        requires
            old(witness).well_formed(),
            self.well_formed(),
        ensures
            final(witness).well_formed(),
            final(witness).rows == old(witness).rows,
            final(witness).advice@.len() == old(witness).advice@.len(),
            final(witness).selectors@.len() == old(witness).selectors@.len(),
            final(witness).fixed == old(witness).fixed,
            forall|c: int, i: int| #[trigger]
                final(witness).fixed_at(c, i) == old(witness).fixed_at(c, i),
            final(witness).instance == old(witness).instance,
            final(witness).challenges == old(witness).challenges,
            final(witness).copies == old(witness).copies,
            r.is_ok() <==> self.fits(old(witness), matrix, prp_arg),
            r.is_ok() ==> self.loaded(old(witness), final(witness), matrix, prp_arg),
            r.is_ok() ==> r.unwrap().value@ == memory_prp(
                matrix.memory_matrix@,
                prp_arg.init@,
                prp_arg.values(old(witness)),
            ) && r.unwrap().at(self.prp, matrix.memory_matrix@.len() as int),
    {
        let ghost before = *witness;
        let ghost rows = matrix.memory_matrix@;
        let ghost ch = prp_arg.values(witness);
        // Read challenges
        let values = PrpValues::read(witness, prp_arg.challenges)?;
        // init prp
        let mut prp = prp_arg.init;
        let mut cell = witness.assign_advice(self.prp, 0, prp)?;
        let memory_matrix = &matrix.memory_matrix;
        let len = memory_matrix.len();
        assert(rows.take(0).len() == 0);
        let mut idx: usize = 0;
        while idx < len
            invariant
                idx <= len,
                len == matrix.memory_matrix@.len(),
                *memory_matrix == matrix.memory_matrix,
                rows == matrix.memory_matrix@,
                ch == prp_arg.values(&before),
                values@ == ch,
                before == *old(witness),
                self.well_formed(),
                witness.well_formed(),
                witness.rows == before.rows,
                witness.advice@.len() == before.advice@.len(),
                witness.selectors@.len() == before.selectors@.len(),
                witness.fixed == before.fixed,
                witness.instance == before.instance,
                witness.challenges == before.challenges,
                witness.copies == before.copies,
                forall|k: int|
                    0 <= k < 4 ==> (#[trigger] prp_arg.challenges@[k]).index
                        < before.challenges@.len(),
                self.prp.index < before.advice@.len(),
                idx < before.rows,
                idx > 0 ==> self.s_prp.0 < before.selectors@.len(),
                prp@ == memory_prp(rows.take(idx as int), prp_arg.init@, ch),
                cell.value == prp && cell.at(self.prp, idx as int),
                forall|c: int, r: int| #[trigger]
                    witness.advice_at(c, r) == self.loaded_advice(
                        &before,
                        rows,
                        prp_arg.init@,
                        ch,
                        idx as int,
                        c,
                        r,
                    ),
                forall|s: int, r: int| #[trigger]
                    witness.selector_at(s, r) == self.loaded_selector(
                        &before,
                        len as int,
                        idx as int,
                        s,
                        r,
                    ),
            decreases len - idx,
        {
            let row = &memory_matrix[idx];
            proof {
                assert(rows.take(idx + 1).drop_last() =~= rows.take(idx as int));
            }
            prp = values.step(&prp, &row.cycle, &row.memory_pointer, &row.memory_value);
            cell = self.load_row(witness, row, idx, idx + 1 >= len, prp)?;
            idx += 1;
        }
        proof {
            assert(rows.take(len as int) =~= rows);
        }
        Ok(cell)
    }
}

} // verus!
