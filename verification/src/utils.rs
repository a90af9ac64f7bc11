//! What the tables share: the order of the opcodes, the challenges, and the
//! steps of the two kinds of accumulators on field elements.

use crate::bn256::fr::Fr;
use crate::code;
use crate::linkage::prp_step;
use crate::linkage::rs_step;
use crate::linkage::PrpChallenges;
use crate::plonk::circuit::Advice;
use crate::plonk::circuit::Challenge;
use crate::plonk::circuit::Column;
use crate::plonk::circuit::FirstPhase;
use crate::plonk::circuit::Selector;
use crate::plonk::constraint_system::ConstraintSystem;
use crate::plonk::expression::Env;
use crate::plonk::witness::Error;
use crate::plonk::witness::Witness;
use vstd::prelude::*;

verus! {

pub const SHL: usize = 0;

pub const SHR: usize = 1;

pub const ADD: usize = 2;

pub const SUB: usize = 3;

pub const GETCHAR: usize = 4;

pub const PUTCHAR: usize = 5;

pub const LB: usize = 6;

pub const RB: usize = 7;

/// The number of rows the circuit is checked on by default.
pub const DOMAIN: usize = 256;

/// The value hashed in place of an empty input.
pub const NIL_HASH_MSG: u64 = 0;

/// The opcode with the given place in the order of opcodes.
pub open spec fn opcode_at(index: int) -> u8 {
    if index == 0 {
        code::SHL
    } else if index == 1 {
        code::SHR
    } else if index == 2 {
        code::ADD
    } else if index == 3 {
        code::SUB
    } else if index == 4 {
        code::GETCHAR
    } else if index == 5 {
        code::PUTCHAR
    } else if index == 6 {
        code::LB
    } else {
        code::RB
    }
}

/// The opcode with the given place in the order of opcodes.
pub fn opcode(index: usize) -> (r: u8)
    requires
        index < 8,
    ensures
        r == opcode_at(index as int),
{
    if index == 0 {
        code::SHL
    } else if index == 1 {
        code::SHR
    } else if index == 2 {
        code::ADD
    } else if index == 3 {
        code::SUB
    } else if index == 4 {
        code::GETCHAR
    } else if index == 5 {
        code::PUTCHAR
    } else if index == 6 {
        code::LB
    } else {
        code::RB
    }
}

/// The value of an advice column at a rotation in `env`.
pub open spec fn adv(env: Env, column: Column<Advice>, rotation: int) -> nat {
    (env.advice)(column.index as int, rotation)
}

/// The value of a selector in `env`.
pub open spec fn sel(env: Env, selector: Selector) -> nat {
    (env.selector)(selector.0 as int)
}

/// The value of a challenge in `env`.
pub open spec fn chal(env: Env, challenge: Challenge) -> nat {
    (env.challenge)(challenge.index as int)
}

/// The seeds of the two running products and the eleven challenges of the
/// tables: four for the memory running product, four for the instruction
/// running product, and one for each of the code, output and input running
/// sums.
#[derive(Clone, Copy, Debug)]
pub struct BFChallenge {
    pub mem_prp_init: Fr,
    pub inst_prp_init: Fr,
    pub challenges: [Challenge; 11],
}

impl BFChallenge {
    /// Requests the eleven challenges, usable after the first phase, and
    /// takes the two seeds.
    pub fn init(cs: &mut ConstraintSystem, mem_prp_init: Fr, inst_prp_init: Fr) -> (r: Self)
        requires
            old(cs).well_formed(),
            old(cs).num_challenges <= usize::MAX - 11,
            old(cs).phase_exists(0),
        ensures
            r.mem_prp_init == mem_prp_init,
            r.inst_prp_init == inst_prp_init,
            forall|k: int| 0 <= k < 11 ==> (#[trigger] r.challenges@[k]).index == old(
                cs,
            ).num_challenges + k,
            final(cs).num_challenges == old(cs).num_challenges + 11,
            final(cs).well_formed(),
            final(cs).num_advice_columns == old(cs).num_advice_columns,
            final(cs).num_fixed_columns == old(cs).num_fixed_columns,
            final(cs).num_instance_columns == old(cs).num_instance_columns,
            final(cs).num_selectors == old(cs).num_selectors,
            final(cs).advice_column_phase == old(cs).advice_column_phase,
            final(cs).same_constraints(old(cs)),
    {
        let c0 = cs.challenge_usable_after(FirstPhase);
        let c1 = cs.challenge_usable_after(FirstPhase);
        let c2 = cs.challenge_usable_after(FirstPhase);
        let c3 = cs.challenge_usable_after(FirstPhase);
        let c4 = cs.challenge_usable_after(FirstPhase);
        let c5 = cs.challenge_usable_after(FirstPhase);
        let c6 = cs.challenge_usable_after(FirstPhase);
        let c7 = cs.challenge_usable_after(FirstPhase);
        let c8 = cs.challenge_usable_after(FirstPhase);
        let c9 = cs.challenge_usable_after(FirstPhase);
        let c10 = cs.challenge_usable_after(FirstPhase);
        Self {
            mem_prp_init,
            inst_prp_init,
            challenges: [c0, c1, c2, c3, c4, c5, c6, c7, c8, c9, c10],
        }
    }

    /// The four challenges of the memory running product.
    pub fn get_mem_prp_challenges(self) -> (r: [Challenge; 4])
        ensures
            r@ == self.challenges@.subrange(0, 4),
    {
        let r = [self.challenges[0], self.challenges[1], self.challenges[2], self.challenges[3]];
        assert(r@ =~= self.challenges@.subrange(0, 4));
        r
    }

    /// The four challenges of the instruction running product.
    pub fn get_inst_prp_challenges(self) -> (r: [Challenge; 4])
        ensures
            r@ == self.challenges@.subrange(4, 8),
    {
        let r = [self.challenges[4], self.challenges[5], self.challenges[6], self.challenges[7]];
        assert(r@ =~= self.challenges@.subrange(4, 8));
        r
    }

    /// The challenge of the code running sum.
    pub fn get_inst_rs_challenges(self) -> (r: Challenge)
        ensures
            r == self.challenges@[8],
    {
        self.challenges[8]
    }

    /// The challenge of the output running sum.
    pub fn get_output_rs_challenge(self) -> (r: Challenge)
        ensures
            r == self.challenges@[9],
    {
        self.challenges[9]
    }

    /// The challenge of the input running sum.
    pub fn get_input_rs_challenge(self) -> (r: Challenge)
        ensures
            r == self.challenges@[10],
    {
        self.challenges[10]
    }
}

/// The four challenge values of a running product.
#[derive(Clone, Copy, Debug)]
pub struct PrpValues {
    pub alpha: Fr,
    pub d: Fr,
    pub e: Fr,
    pub f: Fr,
}

impl View for PrpValues {
    type V = PrpChallenges;

    open spec fn view(&self) -> PrpChallenges {
        PrpChallenges { alpha: self.alpha@, d: self.d@, e: self.e@, f: self.f@ }
    }
}

impl PrpValues {
    /// The values that `witness` holds for four challenges.
    pub fn read(witness: &Witness, challenges: [Challenge; 4]) -> (r: Result<PrpValues, Error>)
        ensures
            r.is_ok() <==> forall|k: int|
                0 <= k < 4 ==> (#[trigger] challenges@[k]).index < witness.challenges@.len(),
            r.is_err() ==> r == Err::<PrpValues, Error>(Error::UnknownChallenge),
            r.is_ok() ==> r.unwrap()@ == (PrpChallenges {
                alpha: witness.challenge_at(challenges@[0].index as int),
                d: witness.challenge_at(challenges@[1].index as int),
                e: witness.challenge_at(challenges@[2].index as int),
                f: witness.challenge_at(challenges@[3].index as int),
            }),
    {
        let alpha = match witness.get_challenge(challenges[0]) {
            Ok(v) => v,
            Err(e) => {
                return Err(e);
            },
        };
        let d = match witness.get_challenge(challenges[1]) {
            Ok(v) => v,
            Err(e) => {
                return Err(e);
            },
        };
        let e = match witness.get_challenge(challenges[2]) {
            Ok(v) => v,
            Err(e) => {
                return Err(e);
            },
        };
        let f = match witness.get_challenge(challenges[3]) {
            Ok(v) => v,
            Err(e) => {
                return Err(e);
            },
        };
        Ok(PrpValues { alpha, d, e, f })
    }

    /// The running product after one more row with columns `a`, `b`, `c`.
    pub fn step(&self, acc: &Fr, a: &Fr, b: &Fr, c: &Fr) -> (r: Fr)
        ensures
            r@ == prp_step(self@, acc@, a@, b@, c@),
    {
        let factor = self.alpha.sub(&self.d.mul(a)).sub(&self.e.mul(b)).sub(&self.f.mul(c));
        acc.mul(&factor)
    }
}

/// The running sum after one more value.
pub fn running_sum_step(gamma: &Fr, acc: &Fr, v: &Fr) -> (r: Fr)
    ensures
        r@ == rs_step(gamma@, acc@, v@),
{
    acc.mul(gamma).add(v)
}

} // verus!
