//! The processor table: one row per cycle, with the boundary, consistency
//! and transition constraints of the machine and the four accumulators that
//! link it to the other tables.

use crate::bn256::fr::fr_add;
use crate::bn256::fr::fr_mul;
use crate::bn256::fr::fr_sub;
use crate::bn256::fr::Fr;
use crate::code;
use crate::interpreter::register_views;
use crate::interpreter::Register;
use crate::interpreter::RegisterView;
use crate::linkage::processor_input_rs;
use crate::linkage::processor_inst_prp;
use crate::linkage::processor_mem_prp;
use crate::linkage::processor_output_rs;
use crate::linkage::prp_step;
use crate::matrix::Matrix;
use crate::plonk::witness::AssignedCell;
use crate::plonk::witness::Error;
use crate::plonk::witness::Witness;
use crate::utils::running_sum_step;
use crate::utils::PrpValues;
use crate::linkage::rs_step;
use crate::linkage::PrpChallenges;
use crate::plonk::circuit::Advice;
use crate::plonk::circuit::Challenge;
use crate::plonk::circuit::Column;
use crate::plonk::circuit::FirstPhase;
use crate::plonk::circuit::SecondPhase;
use crate::plonk::circuit::Selector;
use crate::plonk::constraint_system::ConstraintSystem;
use crate::plonk::expression::Env;
use crate::plonk::expression::Expression;
use crate::poly::Rotation;
use crate::tables::range_table::RangeTableConfig;
use crate::utils::adv;
use crate::utils::chal;
use crate::utils::opcode;
use crate::utils::opcode_at;
use crate::utils::sel;
use crate::utils::BFChallenge;
use crate::utils::ADD;
use crate::utils::GETCHAR;
use crate::utils::LB;
use crate::utils::PUTCHAR;
use crate::utils::RB;
use crate::utils::SHL;
use crate::utils::SHR;
use crate::utils::SUB;
use vstd::prelude::*;

verus! {

/// The product of `ci - o` over the first `k` opcodes `o` other than `op`.
pub open spec fn deselector_upto(ci: nat, op: u8, k: int) -> nat
    decreases k,
{
    if k <= 0 {
        1
    } else {
        let before = deselector_upto(ci, op, k - 1);
        if opcode_at(k - 1) == op {
            before
        } else {
            fr_mul(before, fr_sub(ci, opcode_at(k - 1) as nat))
        }
    }
}

/// The deselector of `op` at `ci`: the product of `ci - o` over the seven
/// other opcodes `o`. It is zero where `ci` is one of those.
pub open spec fn deselector(ci: nat, op: u8) -> nat {
    deselector_upto(ci, op, 8)
}

/// The sum of the deselectors of six opcodes, in the order given.
pub open spec fn deselector_sum6(ci: nat, a: int, b: int, c: int, d: int, e: int, f: int) -> nat {
    fr_add(
        fr_add(
            fr_add(
                fr_add(
                    fr_add(deselector(ci, opcode_at(a)), deselector(ci, opcode_at(b))),
                    deselector(ci, opcode_at(c)),
                ),
                deselector(ci, opcode_at(d)),
            ),
            deselector(ci, opcode_at(e)),
        ),
        deselector(ci, opcode_at(f)),
    )
}

/// A polynomial in `ci` that is zero for every opcode but `op`.
pub fn create_deselector(ci: Expression, op: u8) -> (r: Expression)
    requires
        !ci.has_simple_selector(),
    ensures
        forall|env: Env| #[trigger] r.value(env) == deselector(ci.value(env), op),
        !r.has_simple_selector(),
{
    let mut expr = Expression::constant(Fr::one());
    let mut k: usize = 0;
    while k < 8
        invariant
            k <= 8,
            !ci.has_simple_selector(),
            !expr.has_simple_selector(),
            forall|env: Env| #[trigger] expr.value(env) == deselector_upto(ci.value(env), op, k as int),
        decreases 8 - k,
    {
        let v = opcode(k);
        if v != op {
            let factor = ci.clone().sub(Expression::constant(Fr::from_u64(v as u64)));
            expr = expr.mul(factor);
        }
        k += 1;
    }
    expr
}

/// A polynomial in `ci` that is zero for the opcode `op`: `ci - op`.
pub fn create_selector(ci: Expression, op: u8) -> (r: Expression)
    requires
        !ci.has_simple_selector(),
    ensures
        forall|env: Env| #[trigger] r.value(env) == fr_sub(ci.value(env), op as nat),
        !r.has_simple_selector(),
{
    ci.sub(Expression::constant(Fr::from_u64(op as u64)))
}

/// The columns and selectors of the processor table.
#[derive(Clone, Copy, Debug)]
pub struct ProcessorTableConfig {
    pub clk: Column<Advice>,
    pub ip: Column<Advice>,
    pub ci: Column<Advice>,
    pub ni: Column<Advice>,
    pub mp: Column<Advice>,
    pub mv: Column<Advice>,
    pub mvi: Column<Advice>,
    pub mem_prp: Column<Advice>,
    pub inst_prp: Column<Advice>,
    pub output_rs: Column<Advice>,
    pub input_rs: Column<Advice>,
    /// Lookup table ensuring that memory values are below `range`
    pub lookup_table: RangeTableConfig,
    /// Selector for the lookup
    pub s_lookup: Selector,
    /// Selector for the transition constraints
    pub s_p: Selector,
    /// Selector for the consistency constraints
    pub s_c: Selector,
    /// Selector for the boundary constraints
    pub s_b: Selector,
    /// Selector for the two running products
    pub s_prp: Selector,
    /// Selector for the two running sums
    pub s_rs: Selector,
}

impl ProcessorTableConfig {
    /// `mv * mvi - 1` on the current row: zero where `mvi` inverts `mv`.
    pub open spec fn inverse_defect(self, env: Env) -> nat {
        fr_sub(fr_mul(adv(env, self.mv, 0), adv(env, self.mvi, 0)), 1)
    }

    /// How far the instruction pointer moved beyond `by`.
    pub open spec fn ip_step(self, env: Env, by: nat) -> nat {
        fr_sub(fr_sub(adv(env, self.ip, 1), adv(env, self.ip, 0)), by)
    }

    /// B0: the clock starts at zero.
    pub open spec fn b0(self, env: Env) -> nat {
        fr_mul(sel(env, self.s_b), adv(env, self.clk, 0))
    }

    /// B1: the instruction pointer starts at zero.
    pub open spec fn b1(self, env: Env) -> nat {
        fr_mul(sel(env, self.s_b), adv(env, self.ip, 0))
    }

    /// B3: the memory pointer starts at zero.
    pub open spec fn b3(self, env: Env) -> nat {
        fr_mul(sel(env, self.s_b), adv(env, self.mp, 0))
    }

    /// B4: the memory value starts at zero.
    pub open spec fn b4(self, env: Env) -> nat {
        fr_mul(sel(env, self.s_b), adv(env, self.mv, 0))
    }

    /// P0: the clock increases by one per step.
    pub open spec fn p0(self, env: Env) -> nat {
        fr_mul(sel(env, self.s_p), fr_sub(fr_sub(adv(env, self.clk, 1), adv(env, self.clk, 0)), 1))
    }

    /// C0: `mv` is zero or `mvi` is its inverse.
    pub open spec fn c0(self, env: Env) -> nat {
        fr_mul(fr_mul(sel(env, self.s_c), adv(env, self.mv, 0)), self.inverse_defect(env))
    }

    /// C1: `mvi` is zero or the inverse of `mv`.
    pub open spec fn c1(self, env: Env) -> nat {
        fr_mul(fr_mul(sel(env, self.s_c), adv(env, self.mvi, 0)), self.inverse_defect(env))
    }

    /// P1: the instruction pointer moves as the instruction says. For the
    /// six plain instructions it increases by one. For `[` it increases by
    /// two where `mv` is not zero and becomes `ni` where it is; for `]` the
    /// other way round.
    pub open spec fn p1(self, env: Env) -> nat {
        let ci = adv(env, self.ci, 0);
        let mv = adv(env, self.mv, 0);
        let jump = fr_sub(adv(env, self.ip, 1), adv(env, self.ni, 0));
        let plain = fr_mul(deselector_sum6(ci, 2, 3, 1, 0, 4, 5), self.ip_step(env, 1));
        let lb = fr_mul(
            deselector(ci, opcode_at(6)),
            fr_add(fr_mul(mv, self.ip_step(env, 2)), fr_mul(self.inverse_defect(env), jump)),
        );
        let rb = fr_mul(
            deselector(ci, opcode_at(7)),
            fr_add(fr_mul(self.inverse_defect(env), self.ip_step(env, 2)), fr_mul(mv, jump)),
        );
        fr_mul(sel(env, self.s_p), fr_add(fr_add(plain, lb), rb))
    }

    /// P2: the memory pointer moves as the instruction says: one down for
    /// `<`, one up for `>`, not at all for the other six.
    pub open spec fn p2(self, env: Env) -> nat {
        let ci = adv(env, self.ci, 0);
        let moved = fr_sub(adv(env, self.mp, 1), adv(env, self.mp, 0));
        let stay = fr_mul(deselector_sum6(ci, 2, 3, 6, 7, 4, 5), moved);
        let shl = fr_mul(deselector(ci, opcode_at(0)), fr_add(moved, 1));
        let shr = fr_mul(deselector(ci, opcode_at(1)), fr_sub(moved, 1));
        fr_mul(sel(env, self.s_p), fr_add(fr_add(stay, shl), shr))
    }

    /// P3: the memory value changes as the instruction says: not at all for
    /// `[`, `]` and `.`; by one up, or by `range - 1` down, for `+`; by one
    /// down, or by `range - 1` up, for `-`; in any way for `<`, `>` and `,`.
    pub open spec fn p3(self, env: Env) -> nat {
        let ci = adv(env, self.ci, 0);
        let range_max = (self.lookup_table.range - 1) as nat;
        let changed = fr_sub(adv(env, self.mv, 1), adv(env, self.mv, 0));
        let stay = fr_mul(
            fr_add(
                fr_add(deselector(ci, opcode_at(6)), deselector(ci, opcode_at(7))),
                deselector(ci, opcode_at(5)),
            ),
            changed,
        );
        let free = fr_mul(
            fr_add(
                fr_add(deselector(ci, opcode_at(0)), deselector(ci, opcode_at(1))),
                deselector(ci, opcode_at(4)),
            ),
            0,
        );
        let add = fr_mul(
            fr_mul(deselector(ci, opcode_at(2)), fr_sub(changed, 1)),
            fr_add(changed, range_max),
        );
        let sub = fr_mul(
            fr_mul(deselector(ci, opcode_at(3)), fr_add(changed, 1)),
            fr_sub(changed, range_max),
        );
        fr_mul(sel(env, self.s_p), fr_add(fr_add(fr_add(stay, free), add), sub))
    }

    /// The input of the range check: the memory value, where the lookup is
    /// enabled.
    pub open spec fn lookup_input(self, env: Env) -> nat {
        fr_mul(sel(env, self.s_lookup), adv(env, self.mv, 0))
    }

    /// The columns and selectors lie as `configure` allocates them: the
    /// eleven advice columns in a row from `clk`, the six selectors in a row
    /// from `s_lookup`.
    pub open spec fn well_formed(self) -> bool {
        &&& self.ci.index == self.clk.index + 1
        &&& self.ip.index == self.clk.index + 2
        &&& self.ni.index == self.clk.index + 3
        &&& self.mp.index == self.clk.index + 4
        &&& self.mv.index == self.clk.index + 5
        &&& self.mvi.index == self.clk.index + 6
        &&& self.mem_prp.index == self.clk.index + 7
        &&& self.inst_prp.index == self.clk.index + 8
        &&& self.output_rs.index == self.clk.index + 9
        &&& self.input_rs.index == self.clk.index + 10
        &&& self.s_c.0 == self.s_lookup.0 + 1
        &&& self.s_p.0 == self.s_lookup.0 + 2
        &&& self.s_b.0 == self.s_lookup.0 + 3
        &&& self.s_prp.0 == self.s_lookup.0 + 4
        &&& self.s_rs.0 == self.s_lookup.0 + 5
    }

    /// The deselectors of the eight opcodes at `ci`, in the order of the
    /// opcodes.
    fn deselectors(ci: &Expression) -> (r: Vec<Expression>)
        requires
            !ci.has_simple_selector(),
        ensures
            r@.len() == 8,
            forall|k: int| 0 <= k < 8 ==> !(#[trigger] r@[k]).has_simple_selector(),
            forall|k: int, env: Env|
                0 <= k < 8 ==> #[trigger] r@[k].value(env) == deselector(
                    ci.value(env),
                    opcode_at(k),
                ),
    {
        let mut out: Vec<Expression> = Vec::new();
        let mut k: usize = 0;
        while k < 8
            invariant
                k <= 8,
                out@.len() == k,
                !ci.has_simple_selector(),
                forall|j: int| 0 <= j < k ==> !(#[trigger] out@[j]).has_simple_selector(),
                forall|j: int, env: Env|
                    0 <= j < k ==> #[trigger] out@[j].value(env) == deselector(
                        ci.value(env),
                        opcode_at(j),
                    ),
            decreases 8 - k,
        {
            out.push(create_deselector(ci.clone(), opcode(k)));
            k += 1;
        }
        out
    }

    /// `s * cell` for a selector and a column on the current row.
    fn boundary_poly(cs: &mut ConstraintSystem, s: Selector, column: Column<Advice>) -> (r:
        Expression)
        ensures
            forall|env: Env| #[trigger] r.value(env) == fr_mul(sel(env, s), adv(env, column, 0)),
            final(cs).same_columns(old(cs)),
            final(cs).same_constraints(old(cs)),
    {
        let s = cs.query_selector(s);
        let cell = cs.query_advice(column, Rotation::cur());
        s.mul(cell)
    }

    /// The polynomial of P0.
    fn p0_poly(&self, cs: &mut ConstraintSystem) -> (r: Expression)
        ensures
            forall|env: Env| #[trigger] r.value(env) == self.p0(env),
            final(cs).same_columns(old(cs)),
            final(cs).same_constraints(old(cs)),
    {
        let one = Expression::constant(Fr::one());
        let s_p = cs.query_selector(self.s_p);
        let cur_clk = cs.query_advice(self.clk, Rotation::cur());
        let next_clk = cs.query_advice(self.clk, Rotation::next());
        s_p.mul(next_clk.sub(cur_clk).sub(one))
    }

    /// The polynomial of C0 or, with `mvi` first, of C1.
    fn consistency_poly(&self, cs: &mut ConstraintSystem, first: Column<Advice>) -> (r: Expression)
        ensures
            forall|env: Env| #[trigger]
                r.value(env) == fr_mul(
                    fr_mul(sel(env, self.s_c), adv(env, first, 0)),
                    self.inverse_defect(env),
                ),
            final(cs).same_columns(old(cs)),
            final(cs).same_constraints(old(cs)),
    {
        let one = Expression::constant(Fr::one());
        let s_c = cs.query_selector(self.s_c);
        let lead = cs.query_advice(first, Rotation::cur());
        let mv = cs.query_advice(self.mv, Rotation::cur());
        let mvi = cs.query_advice(self.mvi, Rotation::cur());
        s_c.mul(lead).mul(mv.mul(mvi).sub(one))
    }

    /// The polynomial of P1.
    fn p1_poly(&self, cs: &mut ConstraintSystem) -> (r: Expression)
        ensures
            forall|env: Env| #[trigger] r.value(env) == self.p1(env),
            final(cs).same_columns(old(cs)),
            final(cs).same_constraints(old(cs)),
    {
        let one = Expression::constant(Fr::one());
        let two = Expression::constant(Fr::from_u64(2));
        let ci = cs.query_advice(self.ci, Rotation::cur());
        let deselectors = Self::deselectors(&ci);
        let cur_ip = cs.query_advice(self.ip, Rotation::cur());
        let next_ip = cs.query_advice(self.ip, Rotation::next());
        let cur_mv = cs.query_advice(self.mv, Rotation::cur());
        let cur_mvi = cs.query_advice(self.mvi, Rotation::cur());
        let cur_ni = cs.query_advice(self.ni, Rotation::cur());
        let s_p = cs.query_selector(self.s_p);
        // ADD SUB SHR SHL GETCHAR PUTCHAR share the same condition:
        // ip increases by 1
        let expr1 = deselectors[ADD].clone().add(deselectors[SUB].clone()).add(
            deselectors[SHR].clone(),
        ).add(deselectors[SHL].clone()).add(deselectors[GETCHAR].clone()).add(
            deselectors[PUTCHAR].clone(),
        ).mul(next_ip.clone().sub(cur_ip.clone()).sub(one.clone()));
        // LB: if mv != 0, ip increases by 2, and if mv == 0, ip is set to ni
        let expr_lb = deselectors[LB].clone().mul(
            cur_mv.clone().mul(next_ip.clone().sub(cur_ip.clone()).sub(two.clone())).add(
                cur_mv.clone().mul(cur_mvi.clone()).sub(one.clone()).mul(
                    next_ip.clone().sub(cur_ni.clone()),
                ),
            ),
        );
        // RB: if mv == 0, ip increases by 2, and if mv != 0, ip is set to ni
        let expr_rb = deselectors[RB].clone().mul(
            cur_mv.clone().mul(cur_mvi.clone()).sub(one.clone()).mul(
                next_ip.clone().sub(cur_ip.clone()).sub(two.clone()),
            ).add(cur_mv.clone().mul(next_ip.clone().sub(cur_ni.clone()))),
        );
        s_p.mul(expr1.add(expr_lb).add(expr_rb))
    }

    /// The polynomial of P2.
    fn p2_poly(&self, cs: &mut ConstraintSystem) -> (r: Expression)
        ensures
            forall|env: Env| #[trigger] r.value(env) == self.p2(env),
            final(cs).same_columns(old(cs)),
            final(cs).same_constraints(old(cs)),
    {
        let one = Expression::constant(Fr::one());
        let ci = cs.query_advice(self.ci, Rotation::cur());
        let deselectors = Self::deselectors(&ci);
        let s_p = cs.query_selector(self.s_p);
        let cur_mp = cs.query_advice(self.mp, Rotation::cur());
        let next_mp = cs.query_advice(self.mp, Rotation::next());
        // ADD, SUB, LB, RB, GETCHAR, PUTCHAR share the same condition:
        // memory pointer stays the same
        let expr1 = deselectors[ADD].clone().add(deselectors[SUB].clone()).add(
            deselectors[LB].clone(),
        ).add(deselectors[RB].clone()).add(deselectors[GETCHAR].clone()).add(
            deselectors[PUTCHAR].clone(),
        ).mul(next_mp.clone().sub(cur_mp.clone()));
        // SHL: mp decreases by one
        let expr_shl = deselectors[SHL].clone().mul(
            next_mp.clone().sub(cur_mp.clone()).add(one.clone()),
        );
        // SHR: mp increases by one
        let expr_shr = deselectors[SHR].clone().mul(
            next_mp.clone().sub(cur_mp.clone()).sub(one.clone()),
        );
        s_p.mul(expr1.add(expr_shl).add(expr_shr))
    }

    /// The polynomial of P3.
    fn p3_poly(&self, cs: &mut ConstraintSystem) -> (r: Expression)
        requires
            self.lookup_table.range > 0,
        ensures
            forall|env: Env| #[trigger] r.value(env) == self.p3(env),
            final(cs).same_columns(old(cs)),
            final(cs).same_constraints(old(cs)),
    {
        let zero = Expression::constant(Fr::zero());
        let one = Expression::constant(Fr::one());
        let range_max = Expression::constant(Fr::from_u64((self.lookup_table.range - 1) as u64));
        let ci = cs.query_advice(self.ci, Rotation::cur());
        let deselectors = Self::deselectors(&ci);
        let s_p = cs.query_selector(self.s_p);
        let cur_mv = cs.query_advice(self.mv, Rotation::cur());
        let next_mv = cs.query_advice(self.mv, Rotation::next());
        // LB, RB, PUTCHAR share the same condition: memory value stays the same
        let expr1 = deselectors[LB].clone().add(deselectors[RB].clone()).add(
            deselectors[PUTCHAR].clone(),
        ).mul(next_mv.clone().sub(cur_mv.clone()));
        // The lookup keeps every mv below the range, so a value can only
        // decrease by range - 1 from range - 1 to zero.
        // ADD: mv increases by 1, or decreases by range - 1
        let expr_add = deselectors[ADD].clone().mul(
            next_mv.clone().sub(cur_mv.clone()).sub(one.clone()),
        ).mul(next_mv.clone().sub(cur_mv.clone()).add(range_max.clone()));
        // SUB: mv decreases by 1, or increases by range - 1
        let expr_sub = deselectors[SUB].clone().mul(
            next_mv.clone().sub(cur_mv.clone()).add(one.clone()),
        ).mul(next_mv.clone().sub(cur_mv.clone()).sub(range_max.clone()));
        // SHL, SHR, GETCHAR: always true (checked by the memory table)
        let expr2 = deselectors[SHL].clone().add(deselectors[SHR].clone()).add(
            deselectors[GETCHAR].clone(),
        ).mul(zero.clone());
        s_p.mul(expr1.add(expr2).add(expr_add).add(expr_sub))
    }

    /// The challenges of `challenges` for the memory running product, as
    /// their values in `env`.
    pub open spec fn mem_challenges(env: Env, challenges: BFChallenge) -> PrpChallenges {
        PrpChallenges {
            alpha: chal(env, challenges.challenges@[0]),
            d: chal(env, challenges.challenges@[1]),
            e: chal(env, challenges.challenges@[2]),
            f: chal(env, challenges.challenges@[3]),
        }
    }

    /// The challenges of `challenges` for the instruction running product,
    /// as their values in `env`.
    pub open spec fn inst_challenges(env: Env, challenges: BFChallenge) -> PrpChallenges {
        PrpChallenges {
            alpha: chal(env, challenges.challenges@[4]),
            d: chal(env, challenges.challenges@[5]),
            e: chal(env, challenges.challenges@[6]),
            f: chal(env, challenges.challenges@[7]),
        }
    }

    /// The memory running product takes one factor per row:
    /// `prp' = prp * (alpha - d*clk - e*mp - f*mv)`.
    pub open spec fn mem_prp_gate(self, env: Env, challenges: BFChallenge) -> nat {
        fr_mul(
            sel(env, self.s_prp),
            fr_sub(
                adv(env, self.mem_prp, 1),
                prp_step(
                    Self::mem_challenges(env, challenges),
                    adv(env, self.mem_prp, 0),
                    adv(env, self.clk, 0),
                    adv(env, self.mp, 0),
                    adv(env, self.mv, 0),
                ),
            ),
        )
    }

    /// The instruction running product takes one factor per row:
    /// `prp' = prp * (alpha - d*ip - e*ci - f*ni)`.
    pub open spec fn inst_prp_gate(self, env: Env, challenges: BFChallenge) -> nat {
        fr_mul(
            sel(env, self.s_prp),
            fr_sub(
                adv(env, self.inst_prp, 1),
                prp_step(
                    Self::inst_challenges(env, challenges),
                    adv(env, self.inst_prp, 0),
                    adv(env, self.ip, 0),
                    adv(env, self.ci, 0),
                    adv(env, self.ni, 0),
                ),
            ),
        )
    }

    /// A running sum over the rows of one opcode: on such a row
    /// `rs' = rs * gamma + v`, on every other row `rs' = rs`.
    pub open spec fn rs_gate(
        self,
        env: Env,
        op: u8,
        rs: Column<Advice>,
        gamma: nat,
        v: nat,
    ) -> nat {
        let ci = adv(env, self.ci, 0);
        fr_mul(
            sel(env, self.s_rs),
            fr_add(
                fr_mul(
                    deselector(ci, op),
                    fr_sub(adv(env, rs, 1), rs_step(gamma, adv(env, rs, 0), v)),
                ),
                fr_mul(fr_sub(ci, op as nat), fr_sub(adv(env, rs, 1), adv(env, rs, 0))),
            ),
        )
    }

    /// The output running sum adds the memory value on rows that execute `.`.
    pub open spec fn output_rs_gate(self, env: Env, challenges: BFChallenge) -> nat {
        self.rs_gate(
            env,
            opcode_at(5),
            self.output_rs,
            chal(env, challenges.challenges@[9]),
            adv(env, self.mv, 0),
        )
    }

    /// The input running sum adds the next row's memory value on rows that
    /// execute `,`.
    pub open spec fn input_rs_gate(self, env: Env, challenges: BFChallenge) -> nat {
        self.rs_gate(
            env,
            opcode_at(4),
            self.input_rs,
            chal(env, challenges.challenges@[10]),
            adv(env, self.mv, 1),
        )
    }

    /// The value in `env` of the polynomial of the `k`-th gate that
    /// `configure` creates.
    pub open spec fn first_phase_gate(self, k: int, env: Env) -> nat {
        if k == 0 {
            self.b0(env)
        } else if k == 1 {
            self.b1(env)
        } else if k == 2 {
            self.b3(env)
        } else if k == 3 {
            self.b4(env)
        } else if k == 4 {
            self.p0(env)
        } else if k == 5 {
            self.c0(env)
        } else if k == 6 {
            self.c1(env)
        } else if k == 7 {
            self.p1(env)
        } else if k == 8 {
            self.p2(env)
        } else {
            self.p3(env)
        }
    }

    /// The value in `env` of the polynomial of the `k`-th gate that
    /// `configure_second_phase` creates.
    pub open spec fn second_phase_gate(self, k: int, env: Env, challenges: BFChallenge) -> nat {
        if k == 0 {
            self.mem_prp_gate(env, challenges)
        } else if k == 1 {
            self.inst_prp_gate(env, challenges)
        } else if k == 2 {
            self.output_rs_gate(env, challenges)
        } else {
            self.input_rs_gate(env, challenges)
        }
    }

    /// Allocates the columns and selectors of the table and creates its
    /// first-phase gates and the range check of the memory value.
    pub fn configure(cs: &mut ConstraintSystem, range: usize) -> (r: Self)
        requires
            old(cs).well_formed(),
            range > 0,
            old(cs).num_advice_columns <= usize::MAX - 11,
            old(cs).num_fixed_columns < usize::MAX,
            old(cs).num_selectors <= usize::MAX - 6,
        ensures
            r.well_formed(),
            r.lookup_table.range == range,
            r.clk.index == old(cs).num_advice_columns,
            r.input_rs.index == old(cs).num_advice_columns + 10,
            r.lookup_table.table.inner.index == old(cs).num_fixed_columns,
            r.s_lookup.0 == old(cs).num_selectors,
            r.s_rs.0 == old(cs).num_selectors + 5,
            !r.s_lookup.1,
            final(cs).well_formed(),
            final(cs).phase_exists(0),
            final(cs).phase_exists(1),
            final(cs).num_advice_columns == old(cs).num_advice_columns + 11,
            final(cs).num_fixed_columns == old(cs).num_fixed_columns + 1,
            final(cs).num_selectors == old(cs).num_selectors + 6,
            final(cs).num_instance_columns == old(cs).num_instance_columns,
            final(cs).num_challenges == old(cs).num_challenges,
            final(cs).challenge_phase == old(cs).challenge_phase,
            final(cs).gates@.len() == old(cs).gates@.len() + 10,
            forall|i: int|
                0 <= i < old(cs).gates@.len() ==> #[trigger] final(cs).gates@[i] == old(
                    cs,
                ).gates@[i],
            forall|k: int|
                0 <= k < 10 ==> (#[trigger] final(cs).gates@[old(cs).gates@.len() + k]).polys@.len()
                    == 1,
            forall|k: int, env: Env|
                0 <= k < 10 ==> #[trigger] final(cs).gates@[old(cs).gates@.len() + k].polys@[0].value(
                    env,
                ) == r.first_phase_gate(k, env),
            final(cs).lookups@.len() == old(cs).lookups@.len() + 1,
            forall|i: int|
                0 <= i < old(cs).lookups@.len() ==> #[trigger] final(cs).lookups@[i] == old(
                    cs,
                ).lookups@[i],
            final(cs).lookups@[old(cs).lookups@.len() as int].table == r.lookup_table.table,
            forall|env: Env| #[trigger]
                final(cs).lookups@[old(cs).lookups@.len() as int].input.value(env)
                    == r.lookup_input(env),
    {
        let ghost gates0 = cs.gates@;
        let clk = cs.advice_column_in(FirstPhase);
        assert(cs.advice_column_phase@[cs.advice_column_phase@.len() - 1].0 == 0);
        let ci = cs.advice_column();
        let ip = cs.advice_column();
        let ni = cs.advice_column();
        let mp = cs.advice_column_in(FirstPhase);
        let mv = cs.advice_column_in(FirstPhase);
        let mvi = cs.advice_column();
        assert(cs.advice_column_phase@[clk.index as int].0 == 0);
        assert(cs.phase_exists(0));
        let mem_prp = cs.advice_column_in(SecondPhase);
        cs.enable_equality(mem_prp.to_any());
        assert(cs.advice_column_phase@[clk.index as int].0 == 0);
        let inst_prp = cs.advice_column_in(SecondPhase);
        cs.enable_equality(inst_prp.to_any());
        assert(cs.advice_column_phase@[clk.index as int].0 == 0);
        let output_rs = cs.advice_column_in(SecondPhase);
        cs.enable_equality(output_rs.to_any());
        assert(cs.advice_column_phase@[clk.index as int].0 == 0);
        let input_rs = cs.advice_column_in(SecondPhase);
        cs.enable_equality(input_rs.to_any());
        assert(cs.advice_column_phase@[clk.index as int].0 == 0);
        assert(cs.advice_column_phase@[mem_prp.index as int].0 == 1);
        let lookup_table = RangeTableConfig::configure(cs, range);
        let s_lookup = cs.complex_selector();
        let s_c = cs.selector();
        let s_p = cs.selector();
        let s_b = cs.selector();
        let s_prp = cs.selector();
        let s_rs = cs.selector();
        let config = Self {
            clk,
            ip,
            ci,
            ni,
            mp,
            mv,
            mvi,
            mem_prp,
            inst_prp,
            output_rs,
            input_rs,
            lookup_table,
            s_lookup,
            s_p,
            s_c,
            s_b,
            s_prp,
            s_rs,
        };
        let b0 = Self::boundary_poly(cs, s_b, clk);
        cs.create_gate("B0: clk_0 = 0", vec![b0]);
        let b1 = Self::boundary_poly(cs, s_b, ip);
        cs.create_gate("B1: ip_0 = 0", vec![b1]);
        let b3 = Self::boundary_poly(cs, s_b, mp);
        cs.create_gate("B3: mp_0 = 0", vec![b3]);
        let b4 = Self::boundary_poly(cs, s_b, mv);
        cs.create_gate("B4: mv_0 = 0", vec![b4]);
        let s = cs.query_selector(s_lookup);
        let cell = cs.query_advice(mv, Rotation::cur());
        let input = s.mul(cell);
        cs.lookup("Range-Check: mv is within the range", input, lookup_table.table);
        let p0 = config.p0_poly(cs);
        cs.create_gate("P0: clk increase one per step", vec![p0]);
        let c0 = config.consistency_poly(cs, mv);
        cs.create_gate("C0: mv is 0 or mvi is the inverse of mv", vec![c0]);
        let c1 = config.consistency_poly(cs, mvi);
        cs.create_gate("C1: mvi is 0 or mvi is the inverse of mv", vec![c1]);
        let p1 = config.p1_poly(cs);
        cs.create_gate("P_1: instruction mutates state(1) correctly", vec![p1]);
        let p2 = config.p2_poly(cs);
        cs.create_gate("P_2: instruction mutates state(2) correctly", vec![p2]);
        let p3 = config.p3_poly(cs);
        cs.create_gate("P_3: instruction mutates state(3) correctly", vec![p3]);
        proof {
            let base = gates0.len() as int;
            assert(cs.gates@[base].polys@[0] == b0);
            assert(cs.gates@[base + 1].polys@[0] == b1);
            assert(cs.gates@[base + 2].polys@[0] == b3);
            assert(cs.gates@[base + 3].polys@[0] == b4);
            assert(cs.gates@[base + 4].polys@[0] == p0);
            assert(cs.gates@[base + 5].polys@[0] == c0);
            assert(cs.gates@[base + 6].polys@[0] == c1);
            assert(cs.gates@[base + 7].polys@[0] == p1);
            assert(cs.gates@[base + 8].polys@[0] == p2);
            assert(cs.gates@[base + 9].polys@[0] == p3);
        }
        config
    }

    /// `s_prp * (prp' - prp * (alpha - d*a - e*b - f*c))` for a running
    /// product column and the three columns it runs over.
    fn prp_poly(
        &self,
        cs: &mut ConstraintSystem,
        prp: Column<Advice>,
        a: Column<Advice>,
        b: Column<Advice>,
        c: Column<Advice>,
        challenges: [Challenge; 4],
    ) -> (r: Expression)
        ensures
            forall|env: Env| #[trigger]
                r.value(env) == fr_mul(
                    sel(env, self.s_prp),
                    fr_sub(
                        adv(env, prp, 1),
                        prp_step(
                            PrpChallenges {
                                alpha: chal(env, challenges@[0]),
                                d: chal(env, challenges@[1]),
                                e: chal(env, challenges@[2]),
                                f: chal(env, challenges@[3]),
                            },
                            adv(env, prp, 0),
                            adv(env, a, 0),
                            adv(env, b, 0),
                            adv(env, c, 0),
                        ),
                    ),
                ),
            final(cs).same_columns(old(cs)),
            final(cs).same_constraints(old(cs)),
    {
        let a = cs.query_advice(a, Rotation::cur());
        let b = cs.query_advice(b, Rotation::cur());
        let c = cs.query_advice(c, Rotation::cur());
        let prp_cur = cs.query_advice(prp, Rotation::cur());
        let prp_next = cs.query_advice(prp, Rotation::next());
        let s_prp = cs.query_selector(self.s_prp);
        let alpha = cs.query_challenge(challenges[0]);
        let d = cs.query_challenge(challenges[1]);
        let e = cs.query_challenge(challenges[2]);
        let f = cs.query_challenge(challenges[3]);
        s_prp.mul(prp_next.sub(prp_cur.mul(alpha.sub(d.mul(a)).sub(e.mul(b)).sub(f.mul(c)))))
    }

    /// The polynomial of the running sum over the rows of the opcode with
    /// index `op`, which adds the memory value at `rotation`.
    fn rs_poly(
        &self,
        cs: &mut ConstraintSystem,
        op: usize,
        rs: Column<Advice>,
        gamma: Challenge,
        rotation: Rotation,
    ) -> (r: Expression)
        requires
            op < 8,
        ensures
            forall|env: Env| #[trigger]
                r.value(env) == self.rs_gate(
                    env,
                    opcode_at(op as int),
                    rs,
                    chal(env, gamma),
                    adv(env, self.mv, rotation.0 as int),
                ),
            final(cs).same_columns(old(cs)),
            final(cs).same_constraints(old(cs)),
    {
        let ci = cs.query_advice(self.ci, Rotation::cur());
        let deselector = create_deselector(ci.clone(), opcode(op));
        let selector = create_selector(ci.clone(), opcode(op));
        let mv = cs.query_advice(self.mv, rotation);
        let rs_cur = cs.query_advice(rs, Rotation::cur());
        let rs_next = cs.query_advice(rs, Rotation::next());
        let gamma = cs.query_challenge(gamma);
        let s_rs = cs.query_selector(self.s_rs);
        s_rs.mul(
            deselector.mul(rs_next.clone().sub(rs_cur.clone().mul(gamma).add(mv))).add(
                selector.mul(rs_next.clone().sub(rs_cur)),
            ),
        )
    }

    /// Creates the gates of the four accumulators.
    pub fn configure_second_phase(self, cs: &mut ConstraintSystem, challenges: BFChallenge)
        ensures
            final(cs).same_columns(old(cs)),
            final(cs).lookups == old(cs).lookups,
            final(cs).permutation == old(cs).permutation,
            final(cs).gates@.len() == old(cs).gates@.len() + 4,
            forall|i: int|
                0 <= i < old(cs).gates@.len() ==> #[trigger] final(cs).gates@[i] == old(
                    cs,
                ).gates@[i],
            forall|k: int|
                0 <= k < 4 ==> (#[trigger] final(cs).gates@[old(cs).gates@.len() + k]).polys@.len()
                    == 1,
            forall|k: int, env: Env|
                0 <= k < 4 ==> #[trigger] final(cs).gates@[old(cs).gates@.len() + k].polys@[0].value(
                    env,
                ) == self.second_phase_gate(k, env, challenges),
    {
        let ghost gates0 = cs.gates@;
        let mem = self.prp_poly(
            cs,
            self.mem_prp,
            self.clk,
            self.mp,
            self.mv,
            challenges.get_mem_prp_challenges(),
        );
        cs.create_gate("Mem prp should have valid transition", vec![mem]);
        let inst = self.prp_poly(
            cs,
            self.inst_prp,
            self.ip,
            self.ci,
            self.ni,
            challenges.get_inst_prp_challenges(),
        );
        cs.create_gate("Inst prp should have valid transition", vec![inst]);
        let output = self.rs_poly(
            cs,
            PUTCHAR,
            self.output_rs,
            challenges.get_output_rs_challenge(),
            Rotation::cur(),
        );
        cs.create_gate(
            "processor table should have correct running sum transition for output vals",
            vec![output],
        );
        // mv at next row is the value read in
        let input = self.rs_poly(
            cs,
            GETCHAR,
            self.input_rs,
            challenges.get_input_rs_challenge(),
            Rotation::next(),
        );
        cs.create_gate(
            "processor table should have correct running sum transition for input vals",
            vec![input],
        );
        proof {
            let base = gates0.len() as int;
            assert(cs.gates@[base].polys@[0] == mem);
            assert(cs.gates@[base + 1].polys@[0] == inst);
            assert(cs.gates@[base + 2].polys@[0] == output);
            assert(cs.gates@[base + 3].polys@[0] == input);
        }
    }

    /// The values of the seeds and challenges that loading uses, as
    /// `witness` holds them.
    pub open spec fn challenge_values(witness: &Witness, challenges: BFChallenge) -> ProcessorChallenges {
        ProcessorChallenges {
            mem_init: challenges.mem_prp_init@,
            inst_init: challenges.inst_prp_init@,
            mem: PrpChallenges {
                alpha: witness.challenge_at(challenges.challenges@[0].index as int),
                d: witness.challenge_at(challenges.challenges@[1].index as int),
                e: witness.challenge_at(challenges.challenges@[2].index as int),
                f: witness.challenge_at(challenges.challenges@[3].index as int),
            },
            inst: PrpChallenges {
                alpha: witness.challenge_at(challenges.challenges@[4].index as int),
                d: witness.challenge_at(challenges.challenges@[5].index as int),
                e: witness.challenge_at(challenges.challenges@[6].index as int),
                f: witness.challenge_at(challenges.challenges@[7].index as int),
            },
            out_gamma: witness.challenge_at(challenges.challenges@[9].index as int),
            in_gamma: witness.challenge_at(challenges.challenges@[10].index as int),
        }
    }

    /// What advice cell `(c, i)` holds once the first `n` rows of
    /// `registers` are loaded: the seven register columns hold the
    /// registers, row by row; each accumulator column holds at row `i` the
    /// accumulator over the first `i` rows; every other cell is as `before`.
    pub open spec fn loaded_advice(
        self,
        before: &Witness,
        registers: Seq<RegisterView>,
        ch: ProcessorChallenges,
        n: int,
        c: int,
        i: int,
    ) -> nat {
        if c == self.clk.index && 0 <= i < n {
            registers[i].cycle
        } else if c == self.ip.index && 0 <= i < n {
            registers[i].instruction_pointer
        } else if c == self.ci.index && 0 <= i < n {
            registers[i].current_instruction
        } else if c == self.ni.index && 0 <= i < n {
            registers[i].next_instruction
        } else if c == self.mp.index && 0 <= i < n {
            registers[i].memory_pointer
        } else if c == self.mv.index && 0 <= i < n {
            registers[i].memory_value
        } else if c == self.mvi.index && 0 <= i < n {
            registers[i].memory_value_inverse
        } else if c == self.mem_prp.index && 0 <= i <= n {
            processor_mem_prp(registers.take(i), ch.mem_init, ch.mem)
        } else if c == self.inst_prp.index && 0 <= i <= n {
            processor_inst_prp(registers.take(i), ch.inst_init, ch.inst)
        } else if c == self.output_rs.index && 0 <= i <= n {
            processor_output_rs(registers, ch.out_gamma, i as nat)
        } else if c == self.input_rs.index && 0 <= i <= n {
            processor_input_rs(registers, ch.in_gamma, i as nat)
        } else {
            before.advice_at(c, i)
        }
    }

    /// What selector `s` is on row `i` once the first `n` of `len` rows are
    /// loaded: the boundary selector is enabled on row zero; the selectors
    /// of the transition constraints and of the running sums on every
    /// loaded row but the last of the table; those of the consistency
    /// constraints, the lookup and the running products on every loaded
    /// row; every other selector is as `before`.
    pub open spec fn loaded_selector(self, before: &Witness, len: int, n: int, s: int, i: int) -> nat {
        if s == self.s_b.0 && i == 0 {
            1
        } else if (s == self.s_p.0 || s == self.s_rs.0) && 0 <= i < n && i + 1 < len {
            1
        } else if (s == self.s_c.0 || s == self.s_lookup.0 || s == self.s_prp.0) && 0 <= i < n {
            1
        } else {
            before.selector_at(s, i)
        }
    }

    /// Whether an assignment of `rows` rows, `advice` advice columns and
    /// `selectors` selectors can take row `idx` of `matrix` and the
    /// accumulators after it, and the row is followed by another if it
    /// reads input.
    pub open spec fn row_fits(self, rows: int, advice: int, selectors: int, matrix: &Matrix, idx: int) -> bool {
        let len = matrix.processor_matrix@.len();
        &&& idx + 1 < rows
        &&& self.input_rs.index < advice
        &&& self.s_prp.0 < selectors
        &&& idx + 1 < len ==> self.s_rs.0 < selectors
        &&& matrix.processor_matrix@[idx].current_instruction@ == code::GETCHAR as nat ==> idx + 1
            < len
    }

    /// Whether `witness` has the challenges, columns, selectors and rows
    /// that loading `matrix` needs, and every row of `matrix` that reads
    /// input is followed by another.
    pub open spec fn fits(self, witness: &Witness, matrix: &Matrix, challenges: BFChallenge) -> bool {
        let len = matrix.processor_matrix@.len();
        &&& self.lookup_table.table.inner.index < witness.fixed@.len()
        &&& self.lookup_table.range <= witness.rows
        &&& forall|k: int|
            0 <= k < 11 && k != 8 ==> (#[trigger] challenges.challenges@[k]).index
                < witness.challenges@.len()
        &&& self.input_rs.index < witness.advice@.len()
        &&& self.s_b.0 < witness.selectors@.len()
        &&& forall|j: int|
            0 <= j < len ==> #[trigger] self.row_fits(
                witness.rows as int,
                witness.advice@.len() as int,
                witness.selectors@.len() as int,
                matrix,
                j,
            )
    }

    /// Writes the seven register columns of row `idx`.
    fn assign_registers(&self, witness: &mut Witness, idx: usize, reg: &Register) -> (r: Result<
        (),
        Error,
    >)
        requires
            old(witness).well_formed(),
            self.well_formed(),
        ensures
            final(witness).well_formed(),
            final(witness).rows == old(witness).rows,
            final(witness).advice@.len() == old(witness).advice@.len(),
            final(witness).fixed == old(witness).fixed,
            forall|c: int, i: int| #[trigger] final(witness).fixed_at(c, i) == old(witness).fixed_at(c, i),
            final(witness).instance == old(witness).instance,
            final(witness).selectors == old(witness).selectors,
            forall|c: int, i: int| #[trigger] final(witness).selector_at(c, i) == old(witness).selector_at(c, i),
            final(witness).challenges == old(witness).challenges,
            final(witness).copies == old(witness).copies,
            r.is_ok() <==> idx < old(witness).rows && self.mvi.index < old(witness).advice@.len(),
            r.is_ok() ==> forall|c: int, i: int| #[trigger]
                final(witness).advice_at(c, i) == if i != idx {
                    old(witness).advice_at(c, i)
                } else if c == self.clk.index {
                    reg.cycle@
                } else if c == self.ip.index {
                    reg.instruction_pointer@
                } else if c == self.ci.index {
                    reg.current_instruction@
                } else if c == self.ni.index {
                    reg.next_instruction@
                } else if c == self.mp.index {
                    reg.memory_pointer@
                } else if c == self.mv.index {
                    reg.memory_value@
                } else if c == self.mvi.index {
                    reg.memory_value_inverse@
                } else {
                    old(witness).advice_at(c, i)
                },
    {
        witness.assign_advice(self.clk, idx, reg.cycle)?;
        witness.assign_advice(self.ip, idx, reg.instruction_pointer)?;
        witness.assign_advice(self.ci, idx, reg.current_instruction)?;
        witness.assign_advice(self.ni, idx, reg.next_instruction)?;
        witness.assign_advice(self.mp, idx, reg.memory_pointer)?;
        witness.assign_advice(self.mv, idx, reg.memory_value)?;
        witness.assign_advice(self.mvi, idx, reg.memory_value_inverse)?;
        Ok(())
    }

    /// Writes the four accumulators into row `row` and returns their cells
    /// in the order memory product, output sum, input sum, instruction
    /// product.
    fn assign_accumulators(&self, witness: &mut Witness, row: usize, acc: &Accumulators) -> (r:
        Result<(AssignedCell, AssignedCell, AssignedCell, AssignedCell), Error>)
        requires
            old(witness).well_formed(),
            self.well_formed(),
        ensures
            final(witness).well_formed(),
            final(witness).rows == old(witness).rows,
            final(witness).advice@.len() == old(witness).advice@.len(),
            final(witness).fixed == old(witness).fixed,
            forall|c: int, i: int| #[trigger] final(witness).fixed_at(c, i) == old(witness).fixed_at(c, i),
            final(witness).instance == old(witness).instance,
            final(witness).selectors == old(witness).selectors,
            forall|c: int, i: int| #[trigger] final(witness).selector_at(c, i) == old(witness).selector_at(c, i),
            final(witness).challenges == old(witness).challenges,
            final(witness).copies == old(witness).copies,
            r.is_ok() <==> row < old(witness).rows && self.input_rs.index < old(
                witness,
            ).advice@.len(),
            r.is_ok() ==> self.accumulator_cells(r.unwrap(), row, *acc),
            r.is_ok() ==> forall|c: int, i: int| #[trigger]
                final(witness).advice_at(c, i) == if i != row {
                    old(witness).advice_at(c, i)
                } else if c == self.mem_prp.index {
                    acc.mem_prp@
                } else if c == self.inst_prp.index {
                    acc.inst_prp@
                } else if c == self.output_rs.index {
                    acc.output_rs@
                } else if c == self.input_rs.index {
                    acc.input_rs@
                } else {
                    old(witness).advice_at(c, i)
                },
    {
        let a = witness.assign_advice(self.mem_prp, row, acc.mem_prp)?;
        let b = witness.assign_advice(self.inst_prp, row, acc.inst_prp)?;
        let c = witness.assign_advice(self.output_rs, row, acc.output_rs)?;
        let d = witness.assign_advice(self.input_rs, row, acc.input_rs)?;
        Ok((a, c, d, b))
    }

    /// `cells` are the four accumulator cells of row `row` with the values
    /// of `acc`, in the order memory product, output sum, input sum,
    /// instruction product.
    pub open spec fn accumulator_cells(
        self,
        cells: (AssignedCell, AssignedCell, AssignedCell, AssignedCell),
        row: usize,
        acc: Accumulators,
    ) -> bool {
        &&& cells.0.value == acc.mem_prp && cells.0.at(self.mem_prp, row as int)
        &&& cells.1.value == acc.output_rs && cells.1.at(self.output_rs, row as int)
        &&& cells.2.value == acc.input_rs && cells.2.at(self.input_rs, row as int)
        &&& cells.3.value == acc.inst_prp && cells.3.at(self.inst_prp, row as int)
    }

    /// Enables the selectors of row `idx`; `last` says whether it is the
    /// last row of the table.
    fn enable_row(&self, witness: &mut Witness, idx: usize, last: bool) -> (r: Result<(), Error>)
        requires
            old(witness).well_formed(),
            self.well_formed(),
        ensures
            final(witness).well_formed(),
            final(witness).rows == old(witness).rows,
            final(witness).selectors@.len() == old(witness).selectors@.len(),
            final(witness).fixed == old(witness).fixed,
            forall|c: int, i: int| #[trigger] final(witness).fixed_at(c, i) == old(witness).fixed_at(c, i),
            final(witness).instance == old(witness).instance,
            final(witness).advice == old(witness).advice,
            forall|c: int, i: int| #[trigger] final(witness).advice_at(c, i) == old(witness).advice_at(c, i),
            final(witness).challenges == old(witness).challenges,
            final(witness).copies == old(witness).copies,
            r.is_ok() <==> idx < old(witness).rows && self.s_prp.0 < old(witness).selectors@.len()
                && (!last ==> self.s_rs.0 < old(witness).selectors@.len()),
            r.is_ok() ==> forall|s: int, i: int| #[trigger]
                final(witness).selector_at(s, i) == if i == idx && (s == self.s_c.0 || s
                    == self.s_lookup.0 || s == self.s_prp.0 || (!last && (s == self.s_p.0 || s
                    == self.s_rs.0))) {
                    1
                } else {
                    old(witness).selector_at(s, i)
                },
    {
        // Selectors that are enabled except on the last row
        if !last {
            witness.enable_selector(&self.s_p, idx)?;
            witness.enable_selector(&self.s_rs, idx)?;
        }
        // The consistency constraints, the lookup and the running products
        witness.enable_selector(&self.s_c, idx)?;
        witness.enable_selector(&self.s_lookup, idx)?;
        witness.enable_selector(&self.s_prp, idx)?;
        Ok(())
    }

    /// The accumulators after row `idx` of `registers`.
    pub open spec fn stepped(
        registers: Seq<RegisterView>,
        ch: ProcessorChallenges,
        acc: AccumulatorsView,
        idx: int,
    ) -> AccumulatorsView {
        let r = registers[idx];
        AccumulatorsView {
            mem_prp: prp_step(ch.mem, acc.mem_prp, r.cycle, r.memory_pointer, r.memory_value),
            inst_prp: prp_step(
                ch.inst,
                acc.inst_prp,
                r.instruction_pointer,
                r.current_instruction,
                r.next_instruction,
            ),
            output_rs: if r.current_instruction == code::PUTCHAR as nat {
                rs_step(ch.out_gamma, acc.output_rs, r.memory_value)
            } else {
                acc.output_rs
            },
            input_rs: if r.current_instruction == code::GETCHAR as nat {
                rs_step(ch.in_gamma, acc.input_rs, registers[idx + 1].memory_value)
            } else {
                acc.input_rs
            },
        }
    }

    /// What advice cell `(c, i)` holds after row `idx` was loaded into
    /// `before`: row `idx` holds the registers `r`, row `idx + 1` the
    /// accumulators `acc`.
    pub open spec fn row_advice(
        self,
        before: &Witness,
        r: RegisterView,
        acc: AccumulatorsView,
        idx: int,
        c: int,
        i: int,
    ) -> nat {
        if i == idx && c == self.clk.index {
            r.cycle
        } else if i == idx && c == self.ip.index {
            r.instruction_pointer
        } else if i == idx && c == self.ci.index {
            r.current_instruction
        } else if i == idx && c == self.ni.index {
            r.next_instruction
        } else if i == idx && c == self.mp.index {
            r.memory_pointer
        } else if i == idx && c == self.mv.index {
            r.memory_value
        } else if i == idx && c == self.mvi.index {
            r.memory_value_inverse
        } else if i == idx + 1 && c == self.mem_prp.index {
            acc.mem_prp
        } else if i == idx + 1 && c == self.inst_prp.index {
            acc.inst_prp
        } else if i == idx + 1 && c == self.output_rs.index {
            acc.output_rs
        } else if i == idx + 1 && c == self.input_rs.index {
            acc.input_rs
        } else {
            before.advice_at(c, i)
        }
    }

    /// Loads row `idx` of the table: enables its selectors, writes its
    /// registers, and writes the accumulators after it into the next row.
    fn load_row(
        &self,
        witness: &mut Witness,
        matrix: &Matrix,
        idx: usize,
        values: &ChallengeValues,
        acc: Accumulators,
    ) -> (r: Result<(Accumulators, (AssignedCell, AssignedCell, AssignedCell, AssignedCell)), Error>)
        requires
            old(witness).well_formed(),
            self.well_formed(),
            idx < matrix.processor_matrix@.len(),
        ensures
            final(witness).well_formed(),
            final(witness).rows == old(witness).rows,
            final(witness).advice@.len() == old(witness).advice@.len(),
            final(witness).selectors@.len() == old(witness).selectors@.len(),
            final(witness).fixed == old(witness).fixed,
            forall|c: int, i: int| #[trigger] final(witness).fixed_at(c, i) == old(witness).fixed_at(c, i),
            final(witness).instance == old(witness).instance,
            final(witness).challenges == old(witness).challenges,
            final(witness).copies == old(witness).copies,
            r.is_ok() <==> self.row_fits(
                old(witness).rows as int,
                old(witness).advice@.len() as int,
                old(witness).selectors@.len() as int,
                matrix,
                idx as int,
            ),
            r.is_ok() ==> r.unwrap().0@ == Self::stepped(
                register_views(matrix.processor_matrix@),
                values@,
                acc@,
                idx as int,
            ),
            r.is_ok() ==> self.accumulator_cells(r.unwrap().1, (idx + 1) as usize, r.unwrap().0),
            r.is_ok() ==> forall|c: int, i: int| #[trigger]
                final(witness).advice_at(c, i) == self.row_advice(
                    old(witness),
                    matrix.processor_matrix@[idx as int]@,
                    r.unwrap().0@,
                    idx as int,
                    c,
                    i,
                ),
            r.is_ok() ==> forall|s: int, i: int| #[trigger]
                final(witness).selector_at(s, i) == if i == idx && (s == self.s_c.0 || s
                    == self.s_lookup.0 || s == self.s_prp.0 || (idx + 1
                    < matrix.processor_matrix@.len() && (s == self.s_p.0 || s == self.s_rs.0))) {
                    1
                } else {
                    old(witness).selector_at(s, i)
                },
    {
        let processor_matrix = &matrix.processor_matrix;
        let len = processor_matrix.len();
        let reg = &processor_matrix[idx];
        let ghost registers = register_views(matrix.processor_matrix@);
        assert(registers[idx as int] == reg@);
        self.enable_row(witness, idx, idx + 1 >= len)?;
        self.assign_registers(witness, idx, reg)?;
        let mem_prp = values.mem.step(
            &acc.mem_prp,
            &reg.cycle,
            &reg.memory_pointer,
            &reg.memory_value,
        );
        let inst_prp = values.inst.step(
            &acc.inst_prp,
            &reg.instruction_pointer,
            &reg.current_instruction,
            &reg.next_instruction,
        );
        let putchar_fr = Fr::from_u64(opcode(PUTCHAR) as u64);
        let getchar_fr = Fr::from_u64(opcode(GETCHAR) as u64);
        let output_rs = if reg.current_instruction == putchar_fr {
            running_sum_step(&values.out_gamma, &acc.output_rs, &reg.memory_value)
        } else {
            proof {
                if reg.current_instruction@ == putchar_fr@ {
                    reg.current_instruction.lemma_view_injective(putchar_fr);
                }
            }
            acc.output_rs
        };
        let input_rs = if reg.current_instruction == getchar_fr {
            if idx + 1 >= len {
                return Err(Error::IncompleteTrace);
            }
            let next_mv = processor_matrix[idx + 1].memory_value;
            assert(registers[idx + 1] == processor_matrix@[idx + 1]@);
            running_sum_step(&values.in_gamma, &acc.input_rs, &next_mv)
        } else {
            proof {
                if reg.current_instruction@ == getchar_fr@ {
                    reg.current_instruction.lemma_view_injective(getchar_fr);
                }
            }
            acc.input_rs
        };
        let next = Accumulators { mem_prp, inst_prp, output_rs, input_rs };
        if idx + 1 >= witness.rows {
            return Err(Error::BoundsFailure);
        }
        let cells = self.assign_accumulators(witness, idx + 1, &next)?;
        Ok((next, cells))
    }

    /// The accumulators over the first `n` rows of `registers`.
    pub open spec fn accumulated(registers: Seq<RegisterView>, ch: ProcessorChallenges, n: int) -> AccumulatorsView {
        AccumulatorsView {
            mem_prp: processor_mem_prp(registers.take(n), ch.mem_init, ch.mem),
            inst_prp: processor_inst_prp(registers.take(n), ch.inst_init, ch.inst),
            output_rs: processor_output_rs(registers, ch.out_gamma, n as nat),
            input_rs: processor_input_rs(registers, ch.in_gamma, n as nat),
        }
    }

    /// The accumulators over one more row are the accumulators stepped over
    /// that row.
    pub proof fn lemma_accumulated_step(registers: Seq<RegisterView>, ch: ProcessorChallenges, n: int)
        requires
            0 <= n < registers.len(),
        ensures
            Self::accumulated(registers, ch, n + 1) == Self::stepped(
                registers,
                ch,
                Self::accumulated(registers, ch, n),
                n,
            ),
    {
        assert(registers.take(n + 1).drop_last() =~= registers.take(n));
    }

    /// Loads the processor table of `matrix` into `witness` and returns the
    /// cells that hold the final memory running product, output running
    /// sum, input running sum and instruction running product.
    pub fn load_table(&self, witness: &mut Witness, matrix: &Matrix, challenges: BFChallenge) -> (r:
        Result<(AssignedCell, AssignedCell, AssignedCell, AssignedCell), Error>)
        requires
            old(witness).well_formed(),
            self.well_formed(),
        ensures
            final(witness).well_formed(),
            final(witness).rows == old(witness).rows,
            final(witness).advice@.len() == old(witness).advice@.len(),
            final(witness).fixed@.len() == old(witness).fixed@.len(),
            final(witness).selectors@.len() == old(witness).selectors@.len(),
            final(witness).instance == old(witness).instance,
            final(witness).challenges == old(witness).challenges,
            final(witness).copies == old(witness).copies,
            r.is_ok() <==> self.fits(old(witness), matrix, challenges),
            r.is_ok() ==> self.loaded(old(witness), final(witness), matrix, challenges),
            r.is_ok() ==> self.accumulator_values(r.unwrap(), old(witness), matrix, challenges),
    {
        let ghost registers = register_views(matrix.processor_matrix@);
        let ghost ch = Self::challenge_values(witness, challenges);
        let ghost before = *witness;
        // Init lookup table
        self.lookup_table.load_table(witness)?;
        // Read challenges
        let values = ChallengeValues::read(witness, challenges)?;
        // init prp and rs
        let mut acc = Accumulators {
            mem_prp: challenges.mem_prp_init,
            inst_prp: challenges.inst_prp_init,
            output_rs: Fr::zero(),
            input_rs: Fr::zero(),
        };
        let mut cells = self.assign_accumulators(witness, 0, &acc)?;
        assert(registers.take(0).len() == 0);
        let len = matrix.processor_matrix.len();
        // B condition is enabled only for the first row
        witness.enable_selector(&self.s_b, 0)?;
        let mut idx: usize = 0;
        while idx < len
            invariant
                idx <= len,
                len == matrix.processor_matrix@.len(),
                registers == register_views(matrix.processor_matrix@),
                ch == Self::challenge_values(&before, challenges),
                values@ == ch,
                before == *old(witness),
                self.well_formed(),
                witness.well_formed(),
                witness.rows == before.rows,
                witness.advice@.len() == before.advice@.len(),
                witness.fixed@.len() == before.fixed@.len(),
                witness.selectors@.len() == before.selectors@.len(),
                witness.instance == before.instance,
                witness.challenges == before.challenges,
                witness.copies == before.copies,
                self.lookup_table.table.inner.index < before.fixed@.len(),
                self.lookup_table.range <= before.rows,
                forall|k: int|
                    0 <= k < 11 && k != 8 ==> (#[trigger] challenges.challenges@[k]).index
                        < before.challenges@.len(),
                self.input_rs.index < before.advice@.len(),
                self.s_b.0 < before.selectors@.len(),
                forall|j: int|
                    0 <= j < idx ==> #[trigger] self.row_fits(
                        before.rows as int,
                        before.advice@.len() as int,
                        before.selectors@.len() as int,
                        matrix,
                        j,
                    ),
                acc@ == Self::accumulated(registers, ch, idx as int),
                self.accumulator_cells(cells, idx, acc),
                forall|c: int, r: int| #[trigger]
                    witness.advice_at(c, r) == self.loaded_advice(
                        &before,
                        registers,
                        ch,
                        idx as int,
                        c,
                        r,
                    ),
                forall|s: int, r: int| #[trigger]
                    witness.selector_at(s, r) == self.loaded_selector(
                        &before,
                        len as int,
                        idx as int,
                        s,
                        r,
                    ),
                forall|c: int, r: int| #[trigger]
                    witness.fixed_at(c, r) == self.loaded_fixed(&before, c, r),
            decreases len - idx,
        {
            let ghost at_row = *witness;
            let (next, next_cells) = self.load_row(witness, matrix, idx, &values, acc)?;
            proof {
                Self::lemma_accumulated_step(registers, ch, idx as int);
                self.lemma_loaded_step(&before, &at_row, witness, registers, ch, idx as int);
            }
            acc = next;
            cells = next_cells;
            idx += 1;
        }
        proof {
            assert(registers.take(len as int) =~= registers);
        }
        Ok(cells)
    }

    /// Loading row `n` turns the advice cells of the first `n` rows loaded
    /// into those of the first `n + 1` rows loaded.
    proof fn lemma_loaded_step(
        self,
        before: &Witness,
        at_row: &Witness,
        after: &Witness,
        registers: Seq<RegisterView>,
        ch: ProcessorChallenges,
        n: int,
    )
        requires
            self.well_formed(),
            0 <= n < registers.len(),
            forall|c: int, r: int| #[trigger]
                at_row.advice_at(c, r) == self.loaded_advice(before, registers, ch, n, c, r),
            forall|c: int, r: int| #[trigger]
                after.advice_at(c, r) == self.row_advice(
                    at_row,
                    registers[n],
                    Self::accumulated(registers, ch, n + 1),
                    n,
                    c,
                    r,
                ),
        ensures
            forall|c: int, r: int| #[trigger]
                after.advice_at(c, r) == self.loaded_advice(before, registers, ch, n + 1, c, r),
    {
        assert forall|c: int, r: int| #[trigger]
            after.advice_at(c, r) == self.loaded_advice(before, registers, ch, n + 1, c, r) by {
            assert(at_row.advice_at(c, r) == self.loaded_advice(before, registers, ch, n, c, r));
        }
    }

    /// What fixed cell `(c, i)` holds after loading: the lookup table holds
    /// `0, 1, .., range - 1` in its first rows; every other cell is as
    /// `before`.
    pub open spec fn loaded_fixed(self, before: &Witness, c: int, i: int) -> nat {
        if c == self.lookup_table.table.inner.index && 0 <= i < self.lookup_table.range {
            i as nat
        } else {
            before.fixed_at(c, i)
        }
    }

    /// Whether advice column `c` belongs to this table.
    pub open spec fn owns(self, c: int) -> bool {
        self.clk.index <= c <= self.input_rs.index
    }

    /// Whether selector `s` belongs to this table.
    pub open spec fn owns_selector(self, s: int) -> bool {
        self.s_lookup.0 <= s <= self.s_rs.0
    }

    /// `w` holds the processor table of `matrix` as loading it into
    /// `before` leaves it, whatever `w` holds elsewhere.
    pub open spec fn shows(
        self,
        w: &Witness,
        before: &Witness,
        matrix: &Matrix,
        challenges: BFChallenge,
    ) -> bool {
        let registers = register_views(matrix.processor_matrix@);
        let ch = Self::challenge_values(before, challenges);
        let len = registers.len() as int;
        &&& forall|c: int, i: int|
            self.owns(c) ==> #[trigger] w.advice_at(c, i) == self.loaded_advice(
                before,
                registers,
                ch,
                len,
                c,
                i,
            )
        &&& forall|s: int, i: int|
            self.owns_selector(s) ==> #[trigger] w.selector_at(s, i) == self.loaded_selector(
                before,
                len,
                len,
                s,
                i,
            )
        &&& forall|c: int, i: int|
            c == self.lookup_table.table.inner.index ==> #[trigger] w.fixed_at(c, i)
                == self.loaded_fixed(before, c, i)
    }

    /// `after` is `before` with the processor table of `matrix` loaded.
    pub open spec fn loaded(
        self,
        before: &Witness,
        after: &Witness,
        matrix: &Matrix,
        challenges: BFChallenge,
    ) -> bool {
        let registers = register_views(matrix.processor_matrix@);
        let ch = Self::challenge_values(before, challenges);
        let len = registers.len() as int;
        &&& forall|c: int, i: int| #[trigger]
            after.advice_at(c, i) == self.loaded_advice(before, registers, ch, len, c, i)
        &&& forall|s: int, i: int| #[trigger]
            after.selector_at(s, i) == self.loaded_selector(before, len, len, s, i)
        &&& forall|c: int, i: int| #[trigger] after.fixed_at(c, i) == self.loaded_fixed(before, c, i)
    }

    /// `cells` are the accumulator cells of the row after the last row of
    /// `matrix`, and hold the accumulators over all its rows.
    pub open spec fn accumulator_values(
        self,
        cells: (AssignedCell, AssignedCell, AssignedCell, AssignedCell),
        witness: &Witness,
        matrix: &Matrix,
        challenges: BFChallenge,
    ) -> bool {
        let registers = register_views(matrix.processor_matrix@);
        let ch = Self::challenge_values(witness, challenges);
        &&& cells.0.value@ == processor_mem_prp(registers, ch.mem_init, ch.mem)
        &&& cells.1.value@ == processor_output_rs(registers, ch.out_gamma, registers.len())
        &&& cells.2.value@ == processor_input_rs(registers, ch.in_gamma, registers.len())
        &&& cells.3.value@ == processor_inst_prp(registers, ch.inst_init, ch.inst)
        &&& cells.0.at(self.mem_prp, registers.len() as int)
        &&& cells.1.at(self.output_rs, registers.len() as int)
        &&& cells.2.at(self.input_rs, registers.len() as int)
        &&& cells.3.at(self.inst_prp, registers.len() as int)
    }
}

/// The four accumulators of the processor table.
#[derive(Clone, Copy, Debug)]
pub struct Accumulators {
    pub mem_prp: Fr,
    pub inst_prp: Fr,
    pub output_rs: Fr,
    pub input_rs: Fr,
}

/// The four accumulators of the processor table, as numbers.
pub struct AccumulatorsView {
    pub mem_prp: nat,
    pub inst_prp: nat,
    pub output_rs: nat,
    pub input_rs: nat,
}

impl View for Accumulators {
    type V = AccumulatorsView;

    open spec fn view(&self) -> AccumulatorsView {
        AccumulatorsView {
            mem_prp: self.mem_prp@,
            inst_prp: self.inst_prp@,
            output_rs: self.output_rs@,
            input_rs: self.input_rs@,
        }
    }
}

/// The challenge values that loading the processor table uses.
#[derive(Clone, Copy, Debug)]
pub struct ChallengeValues {
    pub mem_init: Fr,
    pub inst_init: Fr,
    pub mem: PrpValues,
    pub inst: PrpValues,
    pub out_gamma: Fr,
    pub in_gamma: Fr,
}

impl View for ChallengeValues {
    type V = ProcessorChallenges;

    open spec fn view(&self) -> ProcessorChallenges {
        ProcessorChallenges {
            mem_init: self.mem_init@,
            inst_init: self.inst_init@,
            mem: self.mem@,
            inst: self.inst@,
            out_gamma: self.out_gamma@,
            in_gamma: self.in_gamma@,
        }
    }
}

impl ChallengeValues {
    /// The seeds of `challenges` and the values that `witness` holds for
    /// its challenges.
    pub fn read(witness: &Witness, challenges: BFChallenge) -> (r: Result<ChallengeValues, Error>)
        ensures
            r.is_ok() <==> forall|k: int|
                0 <= k < 11 && k != 8 ==> (#[trigger] challenges.challenges@[k]).index
                    < witness.challenges@.len(),
            r.is_ok() ==> r.unwrap()@ == ProcessorTableConfig::challenge_values(
                witness,
                challenges,
            ),
    {
        let ghost mem_four = challenges.challenges@.subrange(0, 4);
        let ghost inst_four = challenges.challenges@.subrange(4, 8);
        assert(forall|k: int| 0 <= k < 4 ==> mem_four[k] == challenges.challenges@[k]);
        assert(forall|k: int| 0 <= k < 4 ==> inst_four[k] == challenges.challenges@[k + 4]);
        let mem = match PrpValues::read(witness, challenges.get_mem_prp_challenges()) {
            Ok(v) => v,
            Err(e) => {
                assert(exists|k: int| 0 <= k < 4 && mem_four[k].index >= witness.challenges@.len());
                return Err(e);
            },
        };
        let inst = match PrpValues::read(witness, challenges.get_inst_prp_challenges()) {
            Ok(v) => v,
            Err(e) => {
                assert(exists|k: int| 0 <= k < 4 && inst_four[k].index >= witness.challenges@.len());
                return Err(e);
            },
        };
        let out_gamma = witness.get_challenge(challenges.get_output_rs_challenge())?;
        let in_gamma = witness.get_challenge(challenges.get_input_rs_challenge())?;
        assert(mem_four[0].index < witness.challenges@.len());
        assert(mem_four[1].index < witness.challenges@.len());
        assert(mem_four[2].index < witness.challenges@.len());
        assert(mem_four[3].index < witness.challenges@.len());
        assert(inst_four[0].index < witness.challenges@.len());
        assert(inst_four[1].index < witness.challenges@.len());
        assert(inst_four[2].index < witness.challenges@.len());
        assert(inst_four[3].index < witness.challenges@.len());
        Ok(
            ChallengeValues {
                mem_init: challenges.mem_prp_init,
                inst_init: challenges.inst_prp_init,
                mem,
                inst,
                out_gamma,
                in_gamma,
            },
        )
    }
}

/// The values of the seeds and challenges of the processor table's
/// accumulators.
pub struct ProcessorChallenges {
    pub mem_init: nat,
    pub inst_init: nat,
    pub mem: PrpChallenges,
    pub inst: PrpChallenges,
    pub out_gamma: nat,
    pub in_gamma: nat,
}

} // verus!
