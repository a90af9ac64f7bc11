//! The input, output and program tables of a trace satisfy their gates.

use crate::bn256::fr::fr_sub;
use crate::completeness::field::lemma_mul_zero;
use crate::linkage::lemma_running_sum_push;
use crate::linkage::rs_step;
use crate::linkage::running_sum;
use crate::plonk::circuit::Advice;
use crate::plonk::circuit::Challenge;
use crate::plonk::circuit::Column;
use crate::plonk::circuit::Selector;
use crate::plonk::witness::rotated;
use crate::plonk::witness::Witness;
use crate::tables::running_sum::rs_gate;
use crate::tables::running_sum::rs_shows;
use crate::utils::adv;
use crate::utils::chal;
use crate::utils::sel;
use vstd::arithmetic::div_mod::lemma_small_mod;
use vstd::prelude::*;

verus! {

/// A running sum's gate vanishes on every row of an assignment that
/// shows a stream shorter than the assignment, loaded into a blank one.
pub proof fn lemma_running_sum_gate(
    w: &Witness,
    before: &Witness,
    val: Column<Advice>,
    rs: Column<Advice>,
    s_rs: Selector,
    gamma: Challenge,
    stream: Seq<nat>,
    row: int,
)
    requires
        before.blank(),
        w.rows == before.rows,
        w.challenges == before.challenges,
        val.index != rs.index,
        rs_shows(w, before, val, rs, s_rs, stream, before.challenge_at(gamma.index as int)),
        stream.len() < w.rows,
        0 <= row < w.rows,
    ensures
        rs_gate(w.env(row), val, rs, s_rs, gamma) == 0,
{
    let env = w.env(row);
    let g = before.challenge_at(gamma.index as int);
    let step = fr_sub(adv(env, rs, 1), rs_step(chal(env, gamma), adv(env, rs, 0), adv(env, val, 0)));
    lemma_mul_zero(step);
    lemma_mul_zero(1);
    lemma_small_mod(row as nat, w.rows as nat);
    assert(rotated(row, 0, w.rows as int) == row);
    if row < stream.len() {
        lemma_small_mod((row + 1) as nat, w.rows as nat);
        assert(rotated(row, 1, w.rows as int) == row + 1);
        assert(stream.take(row + 1) =~= stream.take(row).push(stream[row]));
        lemma_running_sum_push(stream.take(row), g, stream[row]);
        assert(adv(env, rs, 0) == running_sum(stream.take(row), g));
        assert(adv(env, rs, 1) == running_sum(stream.take(row + 1), g));
        assert(adv(env, val, 0) == stream[row]);
        assert(step == 0);
    } else {
        assert(sel(env, s_rs) == 0);
    }
}

} // verus!
