//! The instruction table of a trace satisfies the instruction table's
//! gates.

use crate::bn256::fr::fr_add;
use crate::bn256::fr::fr_modulus;
use crate::bn256::fr::fr_mul;
use crate::bn256::fr::fr_sub;
use crate::completeness::field::lemma_mul_zero;
use crate::instruction_linkage::lemma_change;
use crate::instruction_linkage::lemma_trace_grouped;
use crate::interpreter::is_trace;
use crate::interpreter::runs_for;
use crate::interpreter::static_row;
use crate::interpreter::vm_at;
use crate::interpreter::vm_status;
use crate::interpreter::Status;
use crate::linkage::instruction_prp;
use crate::linkage::instruction_rs;
use crate::linkage::next_pointer;
use crate::linkage::prp_step;
use crate::linkage::rs_step;
use crate::matrix::Matrix;
use crate::plonk::witness::rotated;
use crate::plonk::witness::Witness;
use crate::tables::instruction_table::InstructionTableConfig;
use crate::utils::adv;
use crate::utils::chal;
use crate::utils::sel;
use crate::utils::BFChallenge;
use vstd::arithmetic::div_mod::lemma_small_mod;
use vstd::prelude::*;

verus! {

/// What the proofs on the instruction table assume: `w` shows the trace of
/// an execution that halted after `n` cycles at the end of the program,
/// loaded into a blank assignment with rows to spare.
#[verifier::opaque]
pub open spec fn instruction_setting(
    config: InstructionTableConfig,
    w: &Witness,
    before: &Witness,
    matrix: &Matrix,
    challenges: BFChallenge,
    code: Seq<nat>,
    input: Seq<nat>,
    bits: u64,
    n: nat,
) -> bool {
    &&& config.well_formed()
    &&& before.blank()
    &&& w.rows == before.rows
    &&& w.challenges == before.challenges
    &&& config.shows(w, before, matrix, challenges)
    &&& is_trace(*matrix, code, input, bits, n)
    &&& runs_for(code, input, bits, n)
    &&& vm_status(code, vm_at(code, input, bits, n)) == Status::Halted
    &&& vm_at(code, input, bits, n).register.instruction_pointer == code.len()
    &&& code.len() > 0
    &&& matrix.instruction_matrix@.len() < w.rows
}

/// Two neighbouring rows of the instruction table have the same address
/// and are the same row, or the second has the next address.
pub proof fn lemma_neighbours(
    matrix: &Matrix,
    code: Seq<nat>,
    input: Seq<nat>,
    bits: u64,
    n: nat,
    row: int,
)
    requires
        is_trace(*matrix, code, input, bits, n),
        runs_for(code, input, bits, n),
        vm_status(code, vm_at(code, input, bits, n)) == Status::Halted,
        vm_at(code, input, bits, n).register.instruction_pointer == code.len(),
        code.len() > 0,
        0 <= row < matrix.instruction_matrix@.len() - 1,
    ensures
        ({
            let rows = matrix.instruction_matrix@;
            let a = rows[row].instruction_pointer@;
            let b = rows[row + 1].instruction_pointer@;
            &&& a <= code.len()
            &&& code.len() <= usize::MAX
            &&& b == a || b == a + 1
            &&& b == a ==> rows[row] == rows[row + 1]
        }),
{
    let rows = matrix.instruction_matrix@;
    lemma_trace_grouped(*matrix, code, input, bits, n);
    vstd::std_specs::vec::axiom_spec_len(&matrix.program);
    let a = rows[row].instruction_pointer@;
    let b = rows[row + 1].instruction_pointer@;
    assert(rows[row] == static_row(code, a as int));
    assert(rows[row + 1] == static_row(code, b as int));
    assert(a <= b);
    if a != b {
        lemma_change(rows, code, code.len(), row);
    }
}

/// Every gate of the instruction table vanishes on every row.
pub proof fn lemma_instruction_complete(
    config: InstructionTableConfig,
    w: &Witness,
    before: &Witness,
    matrix: &Matrix,
    challenges: BFChallenge,
    code: Seq<nat>,
    input: Seq<nat>,
    bits: u64,
    n: nat,
    row: int,
)
    requires
        instruction_setting(config, w, before, matrix, challenges, code, input, bits, n),
        0 <= row < w.rows,
    ensures
        forall|k: int| 0 <= k < 3 ==> #[trigger] config.gate(k, w.env(row)) == 0,
        forall|k: int|
            0 <= k < 3 ==> #[trigger] config.second_phase_gate(k, w.env(row), challenges) == 0,
{
    lemma_instruction_transitions(config, w, before, matrix, challenges, code, input, bits, n, row);
    lemma_instruction_last(config, w, before, matrix, challenges, code, input, bits, n, row);
}

/// The three transition gates and the gates of the two accumulators vanish
/// on every row.
proof fn lemma_instruction_transitions(
    config: InstructionTableConfig,
    w: &Witness,
    before: &Witness,
    matrix: &Matrix,
    challenges: BFChallenge,
    code: Seq<nat>,
    input: Seq<nat>,
    bits: u64,
    n: nat,
    row: int,
)
    requires
        instruction_setting(config, w, before, matrix, challenges, code, input, bits, n),
        0 <= row < w.rows,
    ensures
        config.i0(w.env(row)) == 0,
        config.i1(w.env(row)) == 0,
        config.i2(w.env(row)) == 0,
        config.rs_gate(w.env(row), challenges) == 0,
        config.prp_gate(w.env(row), challenges) == 0,
{
    reveal(instruction_setting);
    let env = w.env(row);
    let rows = matrix.instruction_matrix@;
    let len = rows.len() as int;
    let ch = InstructionTableConfig::prp_values(before, challenges);
    let gamma = InstructionTableConfig::gamma(before, challenges);
    let init = challenges.inst_prp_init@;
    assert(config.owns(config.ip.index as int));
    assert(config.owns(config.ci.index as int));
    assert(config.owns(config.ni.index as int));
    assert(config.owns(config.prp.index as int));
    assert(config.owns(config.rs.index as int));
    assert(config.owns_selector(config.s_i.0 as int));
    assert(config.owns_selector(config.s_prp.0 as int));
    assert(config.owns_selector(config.s_rs.0 as int));
    lemma_small_mod(row as nat, w.rows as nat);
    assert(rotated(row, 0, w.rows as int) == row);
    let step = config.ip_step(env);
    let ci_step = fr_sub(adv(env, config.ci, 1), adv(env, config.ci, 0));
    let ni_step = fr_sub(adv(env, config.ni, 1), adv(env, config.ni, 0));
    let rs_take = fr_sub(
        adv(env, config.rs, 1),
        rs_step(chal(env, challenges.challenges@[8]), adv(env, config.rs, 0), adv(env, config.ci, 0)),
    );
    let rs_keep = fr_sub(adv(env, config.rs, 1), adv(env, config.rs, 0));
    let prp_take = fr_sub(
        adv(env, config.prp, 1),
        prp_step(
            InstructionTableConfig::prp_challenges(env, challenges),
            adv(env, config.prp, 0),
            adv(env, config.ip, 0),
            adv(env, config.ci, 0),
            adv(env, config.ni, 0),
        ),
    );
    let back = fr_sub(adv(env, config.ip, 0), adv(env, config.ip, 1));
    let prp_keep = fr_sub(adv(env, config.prp, 0), adv(env, config.prp, 1));
    lemma_mul_zero(step);
    lemma_mul_zero(fr_sub(step, 1));
    lemma_mul_zero(ci_step);
    lemma_mul_zero(ni_step);
    lemma_mul_zero(fr_mul(sel(env, config.s_i), step));
    lemma_mul_zero(fr_mul(sel(env, config.s_i), fr_sub(step, 1)));
    lemma_mul_zero(fr_add(fr_mul(step, rs_take), fr_mul(fr_sub(step, 1), rs_keep)));
    lemma_mul_zero(fr_add(fr_mul(fr_sub(step, 1), prp_take), fr_mul(back, prp_keep)));
    lemma_mul_zero(rs_take);
    lemma_mul_zero(rs_keep);
    lemma_mul_zero(prp_take);
    lemma_mul_zero(prp_keep);
    lemma_mul_zero(back);
    lemma_mul_zero(1);
    if row + 1 < len {
        lemma_small_mod((row + 1) as nat, w.rows as nat);
        assert(rotated(row, 1, w.rows as int) == row + 1);
        lemma_neighbours(matrix, code, input, bits, n, row);
        let a = rows[row].instruction_pointer@;
        let b = rows[row + 1].instruction_pointer@;
        assert(next_pointer(rows, row) == b);
        lemma_small_mod(1, fr_modulus());
        assert(adv(env, config.ip, 0) == a);
        assert(adv(env, config.ip, 1) == b);
        assert(adv(env, config.prp, 0) == instruction_prp(rows, init, ch, row as nat));
        assert(adv(env, config.prp, 1) == instruction_prp(rows, init, ch, (row + 1) as nat));
        assert(adv(env, config.rs, 0) == instruction_rs(rows, gamma, row as nat));
        assert(adv(env, config.rs, 1) == instruction_rs(rows, gamma, (row + 1) as nat));
        if a == b {
            assert(step == 0);
            assert(back == 0);
            assert(ci_step == 0);
            assert(ni_step == 0);
            assert(prp_take == 0);
            assert(rs_keep == 0);
        } else {
            assert(fr_sub(step, 1) == 0);
            assert(rs_take == 0);
            assert(prp_keep == 0);
        }
    }
}

/// The polynomial that takes the last row into the running product vanishes on
/// every row.
proof fn lemma_instruction_last(
    config: InstructionTableConfig,
    w: &Witness,
    before: &Witness,
    matrix: &Matrix,
    challenges: BFChallenge,
    code: Seq<nat>,
    input: Seq<nat>,
    bits: u64,
    n: nat,
    row: int,
)
    requires
        instruction_setting(config, w, before, matrix, challenges, code, input, bits, n),
        0 <= row < w.rows,
    ensures
        config.adhoc_gate(w.env(row), challenges) == 0,
{
    reveal(instruction_setting);
    let env = w.env(row);
    let rows = matrix.instruction_matrix@;
    let len = rows.len() as int;
    let ch = InstructionTableConfig::prp_values(before, challenges);
    let init = challenges.inst_prp_init@;
    assert(config.owns(config.ip.index as int));
    assert(config.owns(config.ci.index as int));
    assert(config.owns(config.ni.index as int));
    assert(config.owns(config.prp.index as int));
    assert(config.owns_selector(config.s_prp_adhoc.0 as int));
    let taken = fr_sub(
        adv(env, config.prp, 0),
        prp_step(
            InstructionTableConfig::prp_challenges(env, challenges),
            adv(env, config.prp, -1),
            adv(env, config.ip, -1),
            adv(env, config.ci, -1),
            adv(env, config.ni, -1),
        ),
    );
    lemma_mul_zero(taken);
    lemma_mul_zero(1);
    crate::invariants::lemma_boundary(*matrix, code, input, bits, n);
    if row == len {
        lemma_small_mod(row as nat, w.rows as nat);
        lemma_small_mod((row - 1) as nat, w.rows as nat);
        assert(rotated(row, 0, w.rows as int) == row);
        assert(rotated(row, -1, w.rows as int) == row - 1);
        assert(next_pointer(rows, len - 1) == rows[len - 1].instruction_pointer@);
        assert(adv(env, config.prp, 0) == instruction_prp(rows, init, ch, len as nat));
        assert(adv(env, config.prp, -1) == instruction_prp(rows, init, ch, (len - 1) as nat));
        assert(taken == 0);
    } else {
        assert(sel(env, config.s_prp_adhoc) == 0);
    }
}

} // verus!
