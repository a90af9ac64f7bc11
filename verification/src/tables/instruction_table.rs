//! The instruction table: one row per address of the program and one per
//! cycle, sorted by instruction pointer, with the constraints that make
//! every executed instruction the program's instruction, and the two
//! accumulators that link it to the processor and program tables.

use crate::bn256::fr::fr_add;
use crate::bn256::fr::fr_mul;
use crate::bn256::fr::fr_sub;
use crate::bn256::fr::Fr;
use crate::linkage::instruction_prp;
use crate::linkage::instruction_rs;
use crate::linkage::next_pointer;
use crate::linkage::prp_step;
use crate::linkage::rs_step;
use crate::linkage::PrpChallenges;
use crate::matrix::InstructionMatrixRow;
use crate::matrix::Matrix;
use crate::plonk::circuit::Advice;
use crate::plonk::circuit::Column;
use crate::plonk::circuit::FirstPhase;
use crate::plonk::circuit::SecondPhase;
use crate::plonk::circuit::Selector;
use crate::plonk::constraint_system::ConstraintSystem;
use crate::plonk::expression::Env;
use crate::plonk::expression::Expression;
use crate::plonk::witness::AssignedCell;
use crate::plonk::witness::Error;
use crate::plonk::witness::Witness;
use crate::poly::Rotation;
use crate::utils::adv;
use crate::utils::chal;
use crate::utils::running_sum_step;
use crate::utils::sel;
use crate::utils::BFChallenge;
use crate::utils::PrpValues;
use vstd::prelude::*;

verus! {

/// The columns and selectors of the instruction table.
#[derive(Clone, Copy, Debug)]
pub struct InstructionTableConfig {
    pub ip: Column<Advice>,
    pub ci: Column<Advice>,
    pub ni: Column<Advice>,
    pub prp: Column<Advice>,
    pub rs: Column<Advice>,
    /// Selector for the running product
    pub s_prp: Selector,
    /// Selector for the running product's step over the last row
    pub s_prp_adhoc: Selector,
    /// Selector for the code running sum
    pub s_rs: Selector,
    /// Selector for the transition constraints
    pub s_i: Selector,
}

impl InstructionTableConfig {
    /// The columns and selectors lie as `configure` allocates them.
    pub open spec fn well_formed(self) -> bool {
        &&& self.ci.index == self.ip.index + 1
        &&& self.ni.index == self.ip.index + 2
        &&& self.prp.index == self.ip.index + 3
        &&& self.rs.index == self.ip.index + 4
        &&& self.s_rs.0 == self.s_prp.0 + 1
        &&& self.s_prp_adhoc.0 == self.s_prp.0 + 2
        &&& self.s_i.0 == self.s_prp.0 + 3
    }

    /// How far the instruction pointer moved to the next row.
    pub open spec fn ip_step(self, env: Env) -> nat {
        fr_sub(adv(env, self.ip, 1), adv(env, self.ip, 0))
    }

    /// I0: the instruction pointer increases by zero or by one.
    pub open spec fn i0(self, env: Env) -> nat {
        fr_mul(fr_mul(sel(env, self.s_i), self.ip_step(env)), fr_sub(self.ip_step(env), 1))
    }

    /// I1: where the instruction pointer stays, so does the current
    /// instruction.
    pub open spec fn i1(self, env: Env) -> nat {
        fr_mul(
            fr_mul(sel(env, self.s_i), fr_sub(self.ip_step(env), 1)),
            fr_sub(adv(env, self.ci, 1), adv(env, self.ci, 0)),
        )
    }

    /// I2: where the instruction pointer stays, so does the next
    /// instruction.
    pub open spec fn i2(self, env: Env) -> nat {
        fr_mul(
            fr_mul(sel(env, self.s_i), fr_sub(self.ip_step(env), 1)),
            fr_sub(adv(env, self.ni, 1), adv(env, self.ni, 0)),
        )
    }

    /// The value in `env` of the polynomial of the `k`-th gate that
    /// `configure` creates.
    pub open spec fn gate(self, k: int, env: Env) -> nat {
        if k == 0 {
            self.i0(env)
        } else if k == 1 {
            self.i1(env)
        } else {
            self.i2(env)
        }
    }

    /// The challenges of the instruction running product, as their values
    /// in `env`.
    pub open spec fn prp_challenges(env: Env, challenges: BFChallenge) -> PrpChallenges {
        PrpChallenges {
            alpha: chal(env, challenges.challenges@[4]),
            d: chal(env, challenges.challenges@[5]),
            e: chal(env, challenges.challenges@[6]),
            f: chal(env, challenges.challenges@[7]),
        }
    }

    /// The code running sum adds the instruction where the instruction
    /// pointer increases, and stays where it does not.
    pub open spec fn rs_gate(self, env: Env, challenges: BFChallenge) -> nat {
        let gamma = chal(env, challenges.challenges@[8]);
        fr_mul(
            sel(env, self.s_rs),
            fr_add(
                fr_mul(
                    self.ip_step(env),
                    fr_sub(
                        adv(env, self.rs, 1),
                        rs_step(gamma, adv(env, self.rs, 0), adv(env, self.ci, 0)),
                    ),
                ),
                fr_mul(
                    fr_sub(self.ip_step(env), 1),
                    fr_sub(adv(env, self.rs, 1), adv(env, self.rs, 0)),
                ),
            ),
        )
    }

    /// The running product takes the factor of a row where the instruction
    /// pointer stays, and stays where it does not.
    pub open spec fn prp_gate(self, env: Env, challenges: BFChallenge) -> nat {
        fr_mul(
            sel(env, self.s_prp),
            fr_add(
                fr_mul(
                    fr_sub(self.ip_step(env), 1),
                    fr_sub(
                        adv(env, self.prp, 1),
                        prp_step(
                            Self::prp_challenges(env, challenges),
                            adv(env, self.prp, 0),
                            adv(env, self.ip, 0),
                            adv(env, self.ci, 0),
                            adv(env, self.ni, 0),
                        ),
                    ),
                ),
                fr_mul(
                    fr_sub(adv(env, self.ip, 0), adv(env, self.ip, 1)),
                    fr_sub(adv(env, self.prp, 0), adv(env, self.prp, 1)),
                ),
            ),
        )
    }

    /// The running product takes the factor of the last row, which no
    /// transition covers: seen from the row after it,
    /// `prp = prp_prev * (alpha - d*ip_prev - e*ci_prev - f*ni_prev)`.
    pub open spec fn adhoc_gate(self, env: Env, challenges: BFChallenge) -> nat {
        fr_mul(
            sel(env, self.s_prp_adhoc),
            fr_sub(
                adv(env, self.prp, 0),
                prp_step(
                    Self::prp_challenges(env, challenges),
                    adv(env, self.prp, -1),
                    adv(env, self.ip, -1),
                    adv(env, self.ci, -1),
                    adv(env, self.ni, -1),
                ),
            ),
        )
    }

    /// The value in `env` of the polynomial of the `k`-th gate that
    /// `configure_second_phase` creates.
    pub open spec fn second_phase_gate(self, k: int, env: Env, challenges: BFChallenge) -> nat {
        if k == 0 {
            self.rs_gate(env, challenges)
        } else if k == 1 {
            self.prp_gate(env, challenges)
        } else {
            self.adhoc_gate(env, challenges)
        }
    }

    /// `s_i * (ip' - ip - 1) * (cell' - cell)` for a column.
    fn unchanged_poly(&self, cs: &mut ConstraintSystem, column: Column<Advice>) -> (r: Expression)
        ensures
            forall|env: Env| #[trigger]
                r.value(env) == fr_mul(
                    fr_mul(sel(env, self.s_i), fr_sub(self.ip_step(env), 1)),
                    fr_sub(adv(env, column, 1), adv(env, column, 0)),
                ),
            final(cs).same_columns(old(cs)),
            final(cs).same_constraints(old(cs)),
    {
        let one = Expression::constant(Fr::one());
        let cur_ip = cs.query_advice(self.ip, Rotation::cur());
        let next_ip = cs.query_advice(self.ip, Rotation::next());
        let cur = cs.query_advice(column, Rotation::cur());
        let next = cs.query_advice(column, Rotation::next());
        let s_i = cs.query_selector(self.s_i);
        s_i.mul(next_ip.clone().sub(cur_ip.clone()).sub(one.clone())).mul(
            next.clone().sub(cur.clone()),
        )
    }

    /// Allocates the columns and selectors of the table and creates its
    /// three transition gates.
    pub fn configure(cs: &mut ConstraintSystem) -> (r: Self)
        requires
            old(cs).well_formed(),
            old(cs).num_advice_columns <= usize::MAX - 5,
            old(cs).num_selectors <= usize::MAX - 4,
        ensures
            r.well_formed(),
            r.ip.index == old(cs).num_advice_columns,
            r.s_prp.0 == old(cs).num_selectors,
            final(cs).well_formed(),
            final(cs).phase_exists(0),
            final(cs).phase_exists(1),
            final(cs).num_advice_columns == old(cs).num_advice_columns + 5,
            final(cs).num_selectors == old(cs).num_selectors + 4,
            final(cs).num_fixed_columns == old(cs).num_fixed_columns,
            final(cs).num_instance_columns == old(cs).num_instance_columns,
            final(cs).num_challenges == old(cs).num_challenges,
            final(cs).challenge_phase == old(cs).challenge_phase,
            final(cs).lookups == old(cs).lookups,
            final(cs).gates@.len() == old(cs).gates@.len() + 3,
            forall|i: int|
                0 <= i < old(cs).gates@.len() ==> #[trigger] final(cs).gates@[i] == old(
                    cs,
                ).gates@[i],
            forall|k: int|
                0 <= k < 3 ==> (#[trigger] final(cs).gates@[old(cs).gates@.len() + k]).polys@.len()
                    == 1,
            forall|k: int, env: Env|
                0 <= k < 3 ==> #[trigger] final(cs).gates@[old(cs).gates@.len() + k].polys@[0].value(
                    env,
                ) == r.gate(k, env),
    {
        let ghost gates0 = cs.gates@;
        let one = Expression::constant(Fr::one());
        let ip = cs.advice_column_in(FirstPhase);
        let ci = cs.advice_column_in(FirstPhase);
        let ni = cs.advice_column_in(FirstPhase);
        assert(cs.advice_column_phase@[ip.index as int].0 == 0);
        let prp = cs.advice_column_in(SecondPhase);
        assert(cs.advice_column_phase@[ip.index as int].0 == 0);
        let rs = cs.advice_column_in(SecondPhase);
        cs.enable_equality(prp.to_any());
        cs.enable_equality(rs.to_any());
        assert(cs.advice_column_phase@[ip.index as int].0 == 0);
        assert(cs.advice_column_phase@[prp.index as int].0 == 1);
        let s_prp = cs.selector();
        let s_rs = cs.selector();
        let s_prp_adhoc = cs.selector();
        let s_i = cs.selector();
        let config = Self { ip, ci, ni, prp, rs, s_i, s_prp, s_prp_adhoc, s_rs };
        let cur_ip = cs.query_advice(ip, Rotation::cur());
        let next_ip = cs.query_advice(ip, Rotation::next());
        let s = cs.query_selector(s_i);
        let i0 = s.mul(next_ip.clone().sub(cur_ip.clone())).mul(
            next_ip.clone().sub(cur_ip.clone()).sub(one.clone()),
        );
        cs.create_gate("I0: Instruction pointer increases by 0 or 1", vec![i0]);
        let i1 = config.unchanged_poly(cs, ci);
        cs.create_gate("I1: If ip is unchanged, then ci is also unchanged.", vec![i1]);
        let i2 = config.unchanged_poly(cs, ni);
        cs.create_gate("I2: If ip is unchanged, then ni is also unchanged.", vec![i2]);
        proof {
            let base = gates0.len() as int;
            assert(cs.gates@[base].polys@[0] == i0);
            assert(cs.gates@[base + 1].polys@[0] == i1);
            assert(cs.gates@[base + 2].polys@[0] == i2);
        }
        config
    }

    /// The polynomial of the code running sum.
    fn rs_poly(&self, cs: &mut ConstraintSystem, challenges: BFChallenge) -> (r: Expression)
        ensures
            forall|env: Env| #[trigger] r.value(env) == self.rs_gate(env, challenges),
            final(cs).same_columns(old(cs)),
            final(cs).same_constraints(old(cs)),
    {
        let one = Expression::constant(Fr::one());
        let ip_cur = cs.query_advice(self.ip, Rotation::cur());
        let ip_next = cs.query_advice(self.ip, Rotation::next());
        let ci = cs.query_advice(self.ci, Rotation::cur());
        let s_rs = cs.query_selector(self.s_rs);
        let gamma = cs.query_challenge(challenges.get_inst_rs_challenges());
        let rs_cur = cs.query_advice(self.rs, Rotation::cur());
        let rs_next = cs.query_advice(self.rs, Rotation::next());
        s_rs.mul(
            ip_next.clone().sub(ip_cur.clone()).mul(
                rs_next.clone().sub(rs_cur.clone().mul(gamma).add(ci)),
            ).add(ip_next.sub(ip_cur).sub(one.clone()).mul(rs_next.sub(rs_cur))),
        )
    }

    /// The polynomial of the running product.
    fn prp_poly(&self, cs: &mut ConstraintSystem, challenges: BFChallenge) -> (r: Expression)
        ensures
            forall|env: Env| #[trigger] r.value(env) == self.prp_gate(env, challenges),
            final(cs).same_columns(old(cs)),
            final(cs).same_constraints(old(cs)),
    {
        let one = Expression::constant(Fr::one());
        let ip_cur = cs.query_advice(self.ip, Rotation::cur());
        let ip_next = cs.query_advice(self.ip, Rotation::next());
        let ci = cs.query_advice(self.ci, Rotation::cur());
        let ni = cs.query_advice(self.ni, Rotation::cur());
        let prp_next = cs.query_advice(self.prp, Rotation::next());
        let prp_cur = cs.query_advice(self.prp, Rotation::cur());
        let s_prp = cs.query_selector(self.s_prp);
        let four = challenges.get_inst_prp_challenges();
        let alpha = cs.query_challenge(four[0]);
        let d = cs.query_challenge(four[1]);
        let e = cs.query_challenge(four[2]);
        let f = cs.query_challenge(four[3]);
        assert(four@[0] == challenges.challenges@[4] && four@[1] == challenges.challenges@[5]
            && four@[2] == challenges.challenges@[6] && four@[3] == challenges.challenges@[7]);
        s_prp.mul(
            ip_next.clone().sub(ip_cur.clone()).sub(one.clone()).mul(
                prp_next.clone().sub(
                    prp_cur.clone().mul(
                        alpha.sub(d.mul(ip_cur.clone())).sub(e.mul(ci)).sub(f.mul(ni)),
                    ),
                ),
            ).add(ip_cur.sub(ip_next).mul(prp_cur.sub(prp_next))),
        )
    }

    /// The polynomial of the running product's step over the last row.
    fn adhoc_poly(&self, cs: &mut ConstraintSystem, challenges: BFChallenge) -> (r: Expression)
        ensures
            forall|env: Env| #[trigger] r.value(env) == self.adhoc_gate(env, challenges),
            final(cs).same_columns(old(cs)),
            final(cs).same_constraints(old(cs)),
    {
        let ip_prev = cs.query_advice(self.ip, Rotation::prev());
        let ci_prev = cs.query_advice(self.ci, Rotation::prev());
        let ni_prev = cs.query_advice(self.ni, Rotation::prev());
        let prp_prev = cs.query_advice(self.prp, Rotation::prev());
        let prp_cur = cs.query_advice(self.prp, Rotation::cur());
        let s_prp_adhoc = cs.query_selector(self.s_prp_adhoc);
        let four = challenges.get_inst_prp_challenges();
        let alpha = cs.query_challenge(four[0]);
        let d = cs.query_challenge(four[1]);
        let e = cs.query_challenge(four[2]);
        let f = cs.query_challenge(four[3]);
        assert(four@[0] == challenges.challenges@[4] && four@[1] == challenges.challenges@[5]
            && four@[2] == challenges.challenges@[6] && four@[3] == challenges.challenges@[7]);
        s_prp_adhoc.mul(
            prp_cur.clone().sub(
                prp_prev.clone().mul(
                    alpha.sub(d.mul(ip_prev.clone())).sub(e.mul(ci_prev)).sub(f.mul(ni_prev)),
                ),
            ),
        )
    }

    /// Creates the gates of the two accumulators.
    pub fn configure_second_phase(self, cs: &mut ConstraintSystem, challenges: BFChallenge)
        ensures
            final(cs).same_columns(old(cs)),
            final(cs).lookups == old(cs).lookups,
            final(cs).permutation == old(cs).permutation,
            final(cs).gates@.len() == old(cs).gates@.len() + 3,
            forall|i: int|
                0 <= i < old(cs).gates@.len() ==> #[trigger] final(cs).gates@[i] == old(
                    cs,
                ).gates@[i],
            forall|k: int|
                0 <= k < 3 ==> (#[trigger] final(cs).gates@[old(cs).gates@.len() + k]).polys@.len()
                    == 1,
            forall|k: int, env: Env|
                0 <= k < 3 ==> #[trigger] final(cs).gates@[old(cs).gates@.len() + k].polys@[0].value(
                    env,
                ) == self.second_phase_gate(k, env, challenges),
    {
        let ghost gates0 = cs.gates@;
        let rs = self.rs_poly(cs, challenges);
        cs.create_gate("Code rs should have valid transition", vec![rs]);
        let prp = self.prp_poly(cs, challenges);
        cs.create_gate("Instruction prp should have valid transition", vec![prp]);
        // The processor table ends with a row for the halted machine, and so
        // does this table. The running product's gate never covers that last row, so an
        // extra gate takes its factor into the running product.
        let adhoc = self.adhoc_poly(cs, challenges);
        cs.create_gate("Instruction prp should include the dummy row", vec![adhoc]);
        proof {
            let base = gates0.len() as int;
            assert(cs.gates@[base].polys@[0] == rs);
            assert(cs.gates@[base + 1].polys@[0] == prp);
            assert(cs.gates@[base + 2].polys@[0] == adhoc);
        }
    }

    /// The values of the running product's challenges, as `witness` holds
    /// them.
    pub open spec fn prp_values(witness: &Witness, challenges: BFChallenge) -> PrpChallenges {
        PrpChallenges {
            alpha: witness.challenge_at(challenges.challenges@[4].index as int),
            d: witness.challenge_at(challenges.challenges@[5].index as int),
            e: witness.challenge_at(challenges.challenges@[6].index as int),
            f: witness.challenge_at(challenges.challenges@[7].index as int),
        }
    }

    /// The value of the code running sum's challenge, as `witness` holds
    /// it.
    pub open spec fn gamma(witness: &Witness, challenges: BFChallenge) -> nat {
        witness.challenge_at(challenges.challenges@[8].index as int)
    }

    /// What advice cell `(c, i)` holds once the first `n` rows of `rows` are
    /// loaded: the three instruction columns hold the rows; each
    /// accumulator column holds at row `i` the accumulator over the first
    /// `i` rows; every other cell is as `before`.
    pub open spec fn loaded_advice(
        self,
        before: &Witness,
        rows: Seq<InstructionMatrixRow>,
        challenges: BFChallenge,
        n: int,
        c: int,
        i: int,
    ) -> nat {
        if c == self.ip.index && 0 <= i < n {
            rows[i].instruction_pointer@
        } else if c == self.ci.index && 0 <= i < n {
            rows[i].current_instruction@
        } else if c == self.ni.index && 0 <= i < n {
            rows[i].next_instruction@
        } else if c == self.prp.index && 0 <= i <= n {
            instruction_prp(
                rows,
                challenges.inst_prp_init@,
                Self::prp_values(before, challenges),
                i as nat,
            )
        } else if c == self.rs.index && 0 <= i <= n {
            instruction_rs(rows, Self::gamma(before, challenges), i as nat)
        } else {
            before.advice_at(c, i)
        }
    }

    /// What selector `s` is on row `i` once the first `n` of `len` rows are
    /// loaded: the selector of the last row's step is enabled on row `len`;
    /// the three other selectors on every loaded row but the last of the
    /// table; every other selector is as `before`.
    pub open spec fn loaded_selector(self, before: &Witness, len: int, n: int, s: int, i: int) -> nat {
        if s == self.s_prp_adhoc.0 && i == len {
            1
        } else if (s == self.s_i.0 || s == self.s_prp.0 || s == self.s_rs.0) && 0 <= i < n && i
            + 1 < len {
            1
        } else {
            before.selector_at(s, i)
        }
    }

    /// Whether `witness` has the challenges, columns, selectors and rows
    /// that loading `matrix` needs.
    pub open spec fn fits(self, witness: &Witness, matrix: &Matrix, challenges: BFChallenge) -> bool {
        let len = matrix.instruction_matrix@.len();
        &&& forall|k: int|
            4 <= k < 9 ==> (#[trigger] challenges.challenges@[k]).index < witness.challenges@.len()
        &&& self.rs.index < witness.advice@.len()
        &&& len < witness.rows
        &&& self.s_prp_adhoc.0 < witness.selectors@.len()
        &&& len > 1 ==> self.s_i.0 < witness.selectors@.len()
    }

    /// Whether advice column `c` belongs to this table.
    pub open spec fn owns(self, c: int) -> bool {
        self.ip.index <= c <= self.rs.index
    }

    /// Whether selector `s` belongs to this table.
    pub open spec fn owns_selector(self, s: int) -> bool {
        self.s_prp.0 <= s <= self.s_i.0
    }

    /// `w` holds the instruction table of `matrix` as loading it into
    /// `before` leaves it, whatever `w` holds elsewhere.
    pub open spec fn shows(
        self,
        w: &Witness,
        before: &Witness,
        matrix: &Matrix,
        challenges: BFChallenge,
    ) -> bool {
        let rows = matrix.instruction_matrix@;
        let len = rows.len() as int;
        &&& forall|c: int, i: int|
            self.owns(c) ==> #[trigger] w.advice_at(c, i) == self.loaded_advice(
                before,
                rows,
                challenges,
                len,
                c,
                i,
            )
        &&& forall|s: int, i: int|
            self.owns_selector(s) ==> #[trigger] w.selector_at(s, i) == self.loaded_selector(
                before,
                len,
                len,
                s,
                i,
            )
    }

    /// `after` is `before` with the instruction table of `matrix` loaded.
    pub open spec fn loaded(
        self,
        before: &Witness,
        after: &Witness,
        matrix: &Matrix,
        challenges: BFChallenge,
    ) -> bool {
        let rows = matrix.instruction_matrix@;
        let len = rows.len() as int;
        &&& forall|c: int, i: int| #[trigger]
            after.advice_at(c, i) == self.loaded_advice(before, rows, challenges, len, c, i)
        &&& forall|s: int, i: int| #[trigger]
            after.selector_at(s, i) == self.loaded_selector(before, len, len, s, i)
    }

    /// Loads row `idx` of the table: enables its selectors, writes its three
    /// columns, and writes the two accumulators after it into the next row.
    /// `last` says whether it is the last row of the table. Returns the
    /// cells of the running product and of the running sum.
    fn load_row(
        &self,
        witness: &mut Witness,
        row: &InstructionMatrixRow,
        idx: usize,
        last: bool,
        prp: Fr,
        rs: Fr,
    ) -> (r: Result<(AssignedCell, AssignedCell), Error>)
        requires
            old(witness).well_formed(),
            self.well_formed(),
        ensures
            final(witness).well_formed(),
            final(witness).rows == old(witness).rows,
            final(witness).advice@.len() == old(witness).advice@.len(),
            final(witness).selectors@.len() == old(witness).selectors@.len(),
            final(witness).fixed == old(witness).fixed,
            final(witness).instance == old(witness).instance,
            final(witness).challenges == old(witness).challenges,
            final(witness).copies == old(witness).copies,
            r.is_ok() <==> idx + 1 < old(witness).rows && self.rs.index < old(
                witness,
            ).advice@.len() && (!last ==> self.s_i.0 < old(witness).selectors@.len()),
            r.is_ok() ==> r.unwrap().0.value == prp && r.unwrap().0.at(self.prp, idx + 1),
            r.is_ok() ==> r.unwrap().1.value == rs && r.unwrap().1.at(self.rs, idx + 1),
            r.is_ok() ==> forall|c: int, i: int| #[trigger]
                final(witness).advice_at(c, i) == if i == idx && c == self.ip.index {
                    row.instruction_pointer@
                } else if i == idx && c == self.ci.index {
                    row.current_instruction@
                } else if i == idx && c == self.ni.index {
                    row.next_instruction@
                } else if i == idx + 1 && c == self.prp.index {
                    prp@
                } else if i == idx + 1 && c == self.rs.index {
                    rs@
                } else {
                    old(witness).advice_at(c, i)
                },
            r.is_ok() ==> forall|s: int, i: int| #[trigger]
                final(witness).selector_at(s, i) == if i == idx && !last && (s == self.s_i.0 || s
                    == self.s_prp.0 || s == self.s_rs.0) {
                    1
                } else {
                    old(witness).selector_at(s, i)
                },
    {
        if !last {
            // I condition is enabled except last row
            witness.enable_selector(&self.s_i, idx)?;
            witness.enable_selector(&self.s_prp, idx)?;
            witness.enable_selector(&self.s_rs, idx)?;
        }
        witness.assign_advice(self.ip, idx, row.instruction_pointer)?;
        witness.assign_advice(self.ci, idx, row.current_instruction)?;
        witness.assign_advice(self.ni, idx, row.next_instruction)?;
        if idx + 1 >= witness.rows {
            return Err(Error::BoundsFailure);
        }
        let prp_cell = witness.assign_advice(self.prp, idx + 1, prp)?;
        let rs_cell = witness.assign_advice(self.rs, idx + 1, rs)?;
        Ok((prp_cell, rs_cell))
    }

    /// Loads the instruction table of `matrix` into `witness`, computes the
    /// two accumulators and returns the cells that hold the final code
    /// running sum and the final running product, in this order.
    pub fn load_table(&self, witness: &mut Witness, matrix: &Matrix, challenges: BFChallenge) -> (r:
        Result<(AssignedCell, AssignedCell), Error>)
        requires
            old(witness).well_formed(),
            self.well_formed(),
        ensures
            final(witness).well_formed(),
            final(witness).rows == old(witness).rows,
            final(witness).advice@.len() == old(witness).advice@.len(),
            final(witness).selectors@.len() == old(witness).selectors@.len(),
            final(witness).fixed == old(witness).fixed,
            forall|c: int, i: int| #[trigger]
                final(witness).fixed_at(c, i) == old(witness).fixed_at(c, i),
            final(witness).instance == old(witness).instance,
            final(witness).challenges == old(witness).challenges,
            final(witness).copies == old(witness).copies,
            r.is_ok() <==> self.fits(old(witness), matrix, challenges),
            r.is_ok() ==> self.loaded(old(witness), final(witness), matrix, challenges),
            r.is_ok() ==> r.unwrap().0.value@ == instruction_rs(
                matrix.instruction_matrix@,
                Self::gamma(old(witness), challenges),
                matrix.instruction_matrix@.len(),
            ) && r.unwrap().0.at(self.rs, matrix.instruction_matrix@.len() as int),
            r.is_ok() ==> r.unwrap().1.value@ == instruction_prp(
                matrix.instruction_matrix@,
                challenges.inst_prp_init@,
                Self::prp_values(old(witness), challenges),
                matrix.instruction_matrix@.len(),
            ) && r.unwrap().1.at(self.prp, matrix.instruction_matrix@.len() as int),
    {
        let ghost before = *witness;
        let ghost rows = matrix.instruction_matrix@;
        let ghost ch = Self::prp_values(witness, challenges);
        let ghost g = Self::gamma(witness, challenges);
        let ghost four = challenges.challenges@.subrange(4, 8);
        assert(forall|k: int| 0 <= k < 4 ==> four[k] == challenges.challenges@[k + 4]);
        let values = match PrpValues::read(witness, challenges.get_inst_prp_challenges()) {
            Ok(v) => v,
            Err(e) => {
                assert(exists|k: int| 0 <= k < 4 && four[k].index >= witness.challenges@.len());
                return Err(e);
            },
        };
        assert(four[0].index < witness.challenges@.len());
        assert(four[1].index < witness.challenges@.len());
        assert(four[2].index < witness.challenges@.len());
        assert(four[3].index < witness.challenges@.len());
        let gamma = witness.get_challenge(challenges.get_inst_rs_challenges())?;
        let mut prp = challenges.inst_prp_init;
        let mut rs = Fr::zero();
        let mut prp_cell = witness.assign_advice(self.prp, 0, prp)?;
        let mut rs_cell = witness.assign_advice(self.rs, 0, rs)?;
        let instruction_matrix = &matrix.instruction_matrix;
        let len = instruction_matrix.len();
        witness.enable_selector(&self.s_prp_adhoc, len)?;
        let mut idx: usize = 0;
        while idx < len
            invariant
                idx <= len,
                len == matrix.instruction_matrix@.len(),
                *instruction_matrix == matrix.instruction_matrix,
                rows == matrix.instruction_matrix@,
                ch == Self::prp_values(&before, challenges),
                g == Self::gamma(&before, challenges),
                values@ == ch,
                gamma@ == g,
                before == *old(witness),
                self.well_formed(),
                witness.well_formed(),
                witness.rows == before.rows,
                witness.advice@.len() == before.advice@.len(),
                witness.selectors@.len() == before.selectors@.len(),
                witness.fixed == before.fixed,
                witness.instance == before.instance,
                witness.challenges == before.challenges,
                witness.copies == before.copies,
                forall|k: int|
                    4 <= k < 9 ==> (#[trigger] challenges.challenges@[k]).index
                        < before.challenges@.len(),
                self.rs.index < before.advice@.len(),
                len < before.rows,
                self.s_prp_adhoc.0 < before.selectors@.len(),
                idx > 0 && len > 1 ==> self.s_i.0 < before.selectors@.len(),
                prp@ == instruction_prp(rows, challenges.inst_prp_init@, ch, idx as nat),
                rs@ == instruction_rs(rows, g, idx as nat),
                prp_cell.value == prp && prp_cell.at(self.prp, idx as int),
                rs_cell.value == rs && rs_cell.at(self.rs, idx as int),
                forall|c: int, r: int| #[trigger]
                    witness.advice_at(c, r) == self.loaded_advice(
                        &before,
                        rows,
                        challenges,
                        idx as int,
                        c,
                        r,
                    ),
                forall|s: int, r: int| #[trigger]
                    witness.selector_at(s, r) == self.loaded_selector(
                        &before,
                        len as int,
                        idx as int,
                        s,
                        r,
                    ),
            decreases len - idx,
        {
            let row = &instruction_matrix[idx];
            let ip_cur = row.instruction_pointer;
            // the last row stands in for the row after it, which takes the
            // last row into the running product
            let ip_next = if idx + 1 < len {
                instruction_matrix[idx + 1].instruction_pointer
            } else {
                row.instruction_pointer
            };
            assert(ip_next@ == next_pointer(rows, idx as int));
            if ip_next == ip_cur {
                prp = values.step(
                    &prp,
                    &ip_cur,
                    &row.current_instruction,
                    &row.next_instruction,
                );
            } else {
                proof {
                    if ip_next@ == ip_cur@ {
                        ip_next.lemma_view_injective(ip_cur);
                    }
                }
                rs = running_sum_step(&gamma, &rs, &row.current_instruction);
            }
            let cells = self.load_row(witness, row, idx, idx + 1 >= len, prp, rs)?;
            prp_cell = cells.0;
            rs_cell = cells.1;
            idx += 1;
        }
        Ok((rs_cell, prp_cell))
    }
}

} // verus!
