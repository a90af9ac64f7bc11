//! The processor table of a trace satisfies the processor table's gates.

use crate::bn256::fr::fr_add;
use crate::bn256::fr::fr_modulus;
use crate::bn256::fr::fr_mul;
use crate::bn256::fr::fr_sub;
use crate::code;
use crate::code::values;
use crate::completeness::field::inverses_below;
use crate::completeness::field::lemma_deselector_other;
use crate::completeness::field::lemma_inverse_or_zero;
use crate::completeness::field::lemma_mul_zero;
use crate::completeness::field::lemma_sub_add;
use crate::interpreter::register_views;
use crate::interpreter::runs_for;
use crate::interpreter::trace_registers;
use crate::interpreter::vm_at;
use crate::interpreter::vm_status;
use crate::interpreter::vm_step;
use crate::interpreter::RegisterView;
use crate::interpreter::Status;
use crate::invariants::lemma_memory_in_range;
use crate::invariants::lemma_opcode_step;
use crate::linkage::lemma_register_cells;
use crate::linkage::lemma_vm_consistent;
use crate::matrix::Matrix;
use crate::plonk::expression::Env;
use crate::plonk::witness::rotated;
use crate::plonk::witness::Witness;
use crate::tables::processor_table::deselector;
use crate::tables::processor_table::deselector_sum6;
use crate::tables::processor_table::ProcessorTableConfig;
use crate::utils::adv;
use crate::utils::chal;
use crate::utils::opcode_at;
use crate::utils::sel;
use crate::utils::BFChallenge;
use vstd::arithmetic::div_mod::lemma_small_mod;
use vstd::arithmetic::power2::pow2;
use vstd::prelude::*;

verus! {

/// What the proofs on the processor table assume: `w` shows the trace of
/// an execution that halted after `n` cycles, loaded into a blank
/// assignment with rows to spare; memory values are `bits` wide and so are
/// the inputs; and the values a cell may hold have inverses.
#[verifier::opaque]
pub open spec fn processor_setting(
    config: ProcessorTableConfig,
    w: &Witness,
    before: &Witness,
    matrix: &Matrix,
    challenges: BFChallenge,
    code: Seq<nat>,
    input: Seq<nat>,
    bits: u64,
    n: nat,
) -> bool {
    &&& config.well_formed()
    &&& before.blank()
    &&& w.rows == before.rows
    &&& w.challenges == before.challenges
    &&& config.shows(w, before, matrix, challenges)
    &&& register_views(matrix.processor_matrix@) == trace_registers(code, input, bits, n)
    &&& values(matrix.program@) == code
    &&& runs_for(code, input, bits, n)
    &&& vm_status(code, vm_at(code, input, bits, n)) == Status::Halted
    &&& code.len() > 0
    &&& bits < 64
    &&& config.lookup_table.range == pow2(bits as nat)
    &&& config.lookup_table.range <= w.rows
    &&& n + 1 < w.rows
    &&& n <= u64::MAX
    &&& forall|i: int| 0 <= i < input.len() ==> #[trigger] input[i] < pow2(bits as nat)
    &&& inverses_below(pow2(bits as nat))
}

/// The registers that row `i` of the processor table holds: those of cycle
/// `i`, and zeros after the table.
pub open spec fn row_registers(matrix: &Matrix, i: int) -> RegisterView {
    if 0 <= i < matrix.processor_matrix@.len() {
        matrix.processor_matrix@[i]@
    } else {
        RegisterView {
            cycle: 0,
            instruction_pointer: 0,
            current_instruction: 0,
            next_instruction: 0,
            memory_pointer: 0,
            memory_value: 0,
            memory_value_inverse: 0,
        }
    }
}

/// What the seven register columns and the six selectors hold on row `row`
/// and the row after it.
pub proof fn lemma_processor_cells(
    config: ProcessorTableConfig,
    w: &Witness,
    before: &Witness,
    matrix: &Matrix,
    challenges: BFChallenge,
    code: Seq<nat>,
    input: Seq<nat>,
    bits: u64,
    n: nat,
    row: int,
)
    requires
        processor_setting(config, w, before, matrix, challenges, code, input, bits, n),
        0 <= row < w.rows,
    ensures
        ({
            let env = w.env(row);
            let cur = row_registers(matrix, row);
            let next = row_registers(matrix, row + 1);
            &&& adv(env, config.clk, 0) == cur.cycle
            &&& adv(env, config.ip, 0) == cur.instruction_pointer
            &&& adv(env, config.ci, 0) == cur.current_instruction
            &&& adv(env, config.ni, 0) == cur.next_instruction
            &&& adv(env, config.mp, 0) == cur.memory_pointer
            &&& adv(env, config.mv, 0) == cur.memory_value
            &&& adv(env, config.mvi, 0) == cur.memory_value_inverse
            &&& row + 1 < w.rows ==> adv(env, config.clk, 1) == next.cycle && adv(env, config.ip, 1)
                == next.instruction_pointer && adv(env, config.mp, 1) == next.memory_pointer
                && adv(env, config.mv, 1) == next.memory_value
            &&& sel(env, config.s_b) == (if row == 0 {
                1nat
            } else {
                0nat
            })
            &&& sel(env, config.s_p) == (if row < n {
                1nat
            } else {
                0nat
            })
            &&& sel(env, config.s_rs) == sel(env, config.s_p)
            &&& sel(env, config.s_c) == (if row <= n {
                1nat
            } else {
                0nat
            })
            &&& sel(env, config.s_lookup) == sel(env, config.s_c)
            &&& sel(env, config.s_prp) == sel(env, config.s_c)
            &&& matrix.processor_matrix@.len() == n + 1
            &&& config.lookup_table.range == pow2(bits as nat)
            &&& n + 1 < w.rows
        }),
{
    reveal(processor_setting);
    let registers = register_views(matrix.processor_matrix@);
    assert(registers.len() == n + 1);
    lemma_small_mod(row as nat, w.rows as nat);
    assert(rotated(row, 0, w.rows as int) == row);
    if row + 1 < w.rows {
        lemma_small_mod((row + 1) as nat, w.rows as nat);
        assert(rotated(row, 1, w.rows as int) == row + 1);
        if row + 1 <= n {
            assert(registers[row + 1] == matrix.processor_matrix@[row + 1]@);
        }
    }
    if row <= n {
        assert(registers[row] == matrix.processor_matrix@[row]@);
    }
    let env = w.env(row);
    assert(config.owns(config.clk.index as int));
    assert(config.owns(config.ip.index as int));
    assert(config.owns(config.ci.index as int));
    assert(config.owns(config.ni.index as int));
    assert(config.owns(config.mp.index as int));
    assert(config.owns(config.mv.index as int));
    assert(config.owns(config.mvi.index as int));
    assert(config.owns_selector(config.s_b.0 as int));
    assert(config.owns_selector(config.s_p.0 as int));
    assert(config.owns_selector(config.s_rs.0 as int));
    assert(config.owns_selector(config.s_c.0 as int));
    assert(config.owns_selector(config.s_lookup.0 as int));
    assert(config.owns_selector(config.s_prp.0 as int));
}

/// The register columns of the current row and of the row after it are
/// those of `cur` and `next`.
pub open spec fn cells_match(
    config: ProcessorTableConfig,
    env: Env,
    cur: RegisterView,
    next: RegisterView,
) -> bool {
    &&& adv(env, config.clk, 0) == cur.cycle
    &&& adv(env, config.ip, 0) == cur.instruction_pointer
    &&& adv(env, config.ci, 0) == cur.current_instruction
    &&& adv(env, config.ni, 0) == cur.next_instruction
    &&& adv(env, config.mp, 0) == cur.memory_pointer
    &&& adv(env, config.mv, 0) == cur.memory_value
    &&& adv(env, config.mvi, 0) == cur.memory_value_inverse
    &&& adv(env, config.clk, 1) == next.cycle
    &&& adv(env, config.ip, 1) == next.instruction_pointer
    &&& adv(env, config.mp, 1) == next.memory_pointer
    &&& adv(env, config.mv, 1) == next.memory_value
}

/// The memory value inverse of `r` is the inverse of its memory value, or
/// zero where the value is zero.
pub open spec fn inverse_held(r: RegisterView) -> bool {
    if r.memory_value == 0 {
        r.memory_value_inverse == 0
    } else {
        fr_mul(r.memory_value, r.memory_value_inverse) == 1
    }
}

/// `next` holds the registers one cycle after `cur`, for memory values of
/// `bits` bits: the instruction is one of the eight, and clock, pointers
/// and memory value moved as it says.
pub open spec fn is_step(bits: u64, cur: RegisterView, next: RegisterView) -> bool {
    let ci = cur.current_instruction;
    let top = (pow2(bits as nat) - 1) as nat;
    &&& ci == opcode_at(opcode_index(ci)) as nat
    &&& 0 < pow2(bits as nat) <= 0x8000_0000_0000_0000
    &&& cur.cycle <= u64::MAX
    &&& cur.instruction_pointer <= usize::MAX
    &&& cur.memory_value < pow2(bits as nat)
    &&& next.memory_value < pow2(bits as nat)
    &&& inverse_held(cur)
    &&& next.cycle == cur.cycle + 1
    &&& ci == code::SHL as nat ==> next.memory_pointer == cur.memory_pointer - 1
    &&& ci == code::SHR as nat ==> next.memory_pointer == cur.memory_pointer + 1
    &&& ci != code::SHL as nat && ci != code::SHR as nat ==> next.memory_pointer
        == cur.memory_pointer
    &&& ci == code::ADD as nat ==> next.memory_value == (if cur.memory_value == top {
        0
    } else {
        cur.memory_value + 1
    })
    &&& ci == code::SUB as nat ==> next.memory_value == (if cur.memory_value == 0 {
        top
    } else {
        (cur.memory_value - 1) as nat
    })
    &&& ci == code::PUTCHAR as nat || ci == code::LB as nat || ci == code::RB as nat
        ==> next.memory_value == cur.memory_value
    &&& ci == code::LB as nat ==> next.instruction_pointer == (if cur.memory_value == 0 {
        cur.next_instruction
    } else {
        cur.instruction_pointer + 2
    })
    &&& ci == code::RB as nat ==> next.instruction_pointer == (if cur.memory_value != 0 {
        cur.next_instruction
    } else {
        cur.instruction_pointer + 2
    })
    &&& ci != code::LB as nat && ci != code::RB as nat ==> next.instruction_pointer
        == cur.instruction_pointer + 1
}

/// The boundary gates vanish where the boundary selector is off or the
/// registers are those of the first cycle.
pub proof fn lemma_boundary_row(config: ProcessorTableConfig, env: Env, cur: RegisterView, next: RegisterView)
    requires
        cells_match(config, env, cur, next),
        sel(env, config.s_b) == 0 || (cur.cycle == 0 && cur.instruction_pointer == 0
            && cur.memory_pointer == 0 && cur.memory_value == 0),
    ensures
        config.b0(env) == 0,
        config.b1(env) == 0,
        config.b3(env) == 0,
        config.b4(env) == 0,
{
    lemma_mul_zero(cur.cycle);
    lemma_mul_zero(cur.instruction_pointer);
    lemma_mul_zero(cur.memory_pointer);
    lemma_mul_zero(cur.memory_value);
    lemma_mul_zero(sel(env, config.s_b));
}

/// The clock gate vanishes where the transition selector is off or the
/// rows are a step.
pub proof fn lemma_p0_row(
    config: ProcessorTableConfig,
    env: Env,
    bits: u64,
    cur: RegisterView,
    next: RegisterView,
)
    requires
        cells_match(config, env, cur, next),
        sel(env, config.s_p) == 0 || is_step(bits, cur, next),
    ensures
        config.p0(env) == 0,
{
    let d = fr_sub(fr_sub(next.cycle, cur.cycle), 1);
    lemma_mul_zero(d);
    lemma_mul_zero(sel(env, config.s_p));
    if sel(env, config.s_p) != 0 {
        lemma_small_mod(1, fr_modulus());
        assert(d == 0);
    }
}

/// The two consistency gates vanish where the consistency selector is off
/// or the register holds the inverse of its memory value.
pub proof fn lemma_consistency_row(
    config: ProcessorTableConfig,
    env: Env,
    cur: RegisterView,
    next: RegisterView,
)
    requires
        cells_match(config, env, cur, next),
        sel(env, config.s_c) == 0 || inverse_held(cur),
    ensures
        config.c0(env) == 0,
        config.c1(env) == 0,
{
    let s = sel(env, config.s_c);
    lemma_mul_zero(config.inverse_defect(env));
    lemma_mul_zero(fr_mul(s, cur.memory_value));
    lemma_mul_zero(fr_mul(s, cur.memory_value_inverse));
    lemma_mul_zero(cur.memory_value);
    lemma_mul_zero(cur.memory_value_inverse);
    lemma_mul_zero(s);
    lemma_small_mod(1, fr_modulus());
    if s != 0 {
        if cur.memory_value != 0 {
            assert(config.inverse_defect(env) == 0);
        }
    }
}

/// P1 vanishes where the transition selector is off or the rows are a
/// step.
pub proof fn lemma_p1_row(
    config: ProcessorTableConfig,
    env: Env,
    bits: u64,
    cur: RegisterView,
    next: RegisterView,
)
    requires
        cells_match(config, env, cur, next),
        sel(env, config.s_p) == 0 || is_step(bits, cur, next),
    ensures
        config.p1(env) == 0,
{
    let ci = cur.current_instruction;
    let mv = cur.memory_value;
    let jump = fr_sub(next.instruction_pointer, cur.next_instruction);
    let step1 = config.ip_step(env, 1);
    let step2 = config.ip_step(env, 2);
    let defect = config.inverse_defect(env);
    let sum = deselector_sum6(ci, 2, 3, 1, 0, 4, 5);
    let inner_lb = fr_add(fr_mul(mv, step2), fr_mul(defect, jump));
    let inner_rb = fr_add(fr_mul(defect, step2), fr_mul(mv, jump));
    let plain = fr_mul(sum, step1);
    let lb = fr_mul(deselector(ci, opcode_at(6)), inner_lb);
    let rb = fr_mul(deselector(ci, opcode_at(7)), inner_rb);
    lemma_mul_zero(fr_add(fr_add(plain, lb), rb));
    lemma_mul_zero(sel(env, config.s_p));
    if sel(env, config.s_p) != 0 {
        let j = opcode_index(ci);
        lemma_deselectors(j);
        lemma_small_mod(1, fr_modulus());
        lemma_small_mod(2, fr_modulus());
        lemma_mul_zero(sum);
        lemma_mul_zero(step1);
        lemma_mul_zero(step2);
        lemma_mul_zero(mv);
        lemma_mul_zero(jump);
        lemma_mul_zero(defect);
        lemma_mul_zero(inner_lb);
        lemma_mul_zero(inner_rb);
        lemma_mul_zero(deselector(ci, opcode_at(6)));
        lemma_mul_zero(deselector(ci, opcode_at(7)));
        lemma_sub_add(next.instruction_pointer, cur.instruction_pointer, 1);
        lemma_sub_add(next.instruction_pointer, cur.instruction_pointer, 2);
        if j == 6 || j == 7 {
            assert(sum == 0);
            if mv != 0 {
                assert(defect == 0);
            }
            if (j == 6) == (mv != 0) {
                assert(step2 == 0);
            } else {
                assert(jump == 0);
            }
        } else {
            assert(step1 == 0);
        }
        assert(plain == 0);
        assert(lb == 0);
        assert(rb == 0);
    }
}

/// P2 vanishes where the transition selector is off or the rows are a
/// step.
pub proof fn lemma_p2_row(
    config: ProcessorTableConfig,
    env: Env,
    bits: u64,
    cur: RegisterView,
    next: RegisterView,
)
    requires
        cells_match(config, env, cur, next),
        sel(env, config.s_p) == 0 || is_step(bits, cur, next),
    ensures
        config.p2(env) == 0,
{
    let ci = cur.current_instruction;
    let moved = fr_sub(next.memory_pointer, cur.memory_pointer);
    let sum = deselector_sum6(ci, 2, 3, 6, 7, 4, 5);
    let stay = fr_mul(sum, moved);
    let shl = fr_mul(deselector(ci, opcode_at(0)), fr_add(moved, 1));
    let shr = fr_mul(deselector(ci, opcode_at(1)), fr_sub(moved, 1));
    lemma_mul_zero(fr_add(fr_add(stay, shl), shr));
    lemma_mul_zero(sel(env, config.s_p));
    if sel(env, config.s_p) != 0 {
        let j = opcode_index(ci);
        lemma_deselectors(j);
        lemma_small_mod(1, fr_modulus());
        lemma_mul_zero(sum);
        lemma_mul_zero(moved);
        lemma_mul_zero(fr_add(moved, 1));
        lemma_mul_zero(fr_sub(moved, 1));
        lemma_mul_zero(deselector(ci, opcode_at(0)));
        lemma_mul_zero(deselector(ci, opcode_at(1)));
        if j == 0 {
            assert(fr_add(moved, 1) == 0);
            assert(sum == 0);
        } else if j == 1 {
            assert(fr_sub(moved, 1) == 0);
            assert(sum == 0);
        } else {
            assert(moved == 0);
        }
        assert(stay == 0);
        assert(shl == 0);
        assert(shr == 0);
    }
}

/// P3 vanishes where the transition selector is off or the rows are a
/// step.
pub proof fn lemma_p3_row(
    config: ProcessorTableConfig,
    env: Env,
    bits: u64,
    cur: RegisterView,
    next: RegisterView,
)
    requires
        cells_match(config, env, cur, next),
        config.lookup_table.range == pow2(bits as nat),
        sel(env, config.s_p) == 0 || is_step(bits, cur, next),
    ensures
        config.p3(env) == 0,
{
    let ci = cur.current_instruction;
    let mv = cur.memory_value;
    let range_max = (config.lookup_table.range - 1) as nat;
    let changed = fr_sub(next.memory_value, mv);
    let kept = fr_add(
        fr_add(deselector(ci, opcode_at(6)), deselector(ci, opcode_at(7))),
        deselector(ci, opcode_at(5)),
    );
    let loose = fr_add(
        fr_add(deselector(ci, opcode_at(0)), deselector(ci, opcode_at(1))),
        deselector(ci, opcode_at(4)),
    );
    let stay = fr_mul(kept, changed);
    let free = fr_mul(loose, 0);
    let add_a = fr_mul(deselector(ci, opcode_at(2)), fr_sub(changed, 1));
    let add = fr_mul(add_a, fr_add(changed, range_max));
    let sub_a = fr_mul(deselector(ci, opcode_at(3)), fr_add(changed, 1));
    let sub = fr_mul(sub_a, fr_sub(changed, range_max));
    lemma_mul_zero(fr_add(fr_add(fr_add(stay, free), add), sub));
    lemma_mul_zero(loose);
    lemma_mul_zero(sel(env, config.s_p));
    if sel(env, config.s_p) != 0 {
        let j = opcode_index(ci);
        lemma_deselectors(j);
        lemma_small_mod(1, fr_modulus());
        lemma_small_mod(range_max, fr_modulus());
        lemma_mul_zero(kept);
        lemma_mul_zero(changed);
        lemma_mul_zero(fr_sub(changed, 1));
        lemma_mul_zero(fr_add(changed, 1));
        lemma_mul_zero(fr_add(changed, range_max));
        lemma_mul_zero(fr_sub(changed, range_max));
        lemma_mul_zero(deselector(ci, opcode_at(2)));
        lemma_mul_zero(deselector(ci, opcode_at(3)));
        lemma_mul_zero(add_a);
        lemma_mul_zero(sub_a);
        lemma_sub_add(next.memory_value, mv, 1);
        lemma_sub_add(next.memory_value, mv, range_max);
        if j == 2 {
            assert(kept == 0);
            if mv == range_max {
                assert(fr_add(changed, range_max) == 0);
            } else {
                assert(fr_sub(changed, 1) == 0);
            }
        } else if j == 3 {
            assert(kept == 0);
            if mv == 0 {
                assert(fr_sub(changed, range_max) == 0);
            } else {
                assert(fr_add(changed, 1) == 0);
            }
        } else if j == 5 || j == 6 || j == 7 {
            assert(changed == 0);
        } else {
            assert(kept == 0);
        }
        assert(stay == 0);
        assert(add == 0);
        assert(sub == 0);
    }
}

/// A running product's gate vanishes where its selector is off or the
/// product in the next row is the product of this row stepped over it.
pub proof fn lemma_prp_row(s: nat, prp: nat, prp_next: nat, stepped: nat)
    requires
        s == 0 || prp_next == stepped,
    ensures
        fr_mul(s, fr_sub(prp_next, stepped)) == 0,
{
    lemma_mul_zero(fr_sub(prp_next, stepped));
    lemma_mul_zero(s);
}

/// A gate of a running sum over the rows of one opcode vanishes where
/// its selector is off, or the instruction is one of the eight and the sum
/// in the next row has taken the value on a row of the opcode and is the
/// same on every other row.
pub proof fn lemma_rs_row(
    config: ProcessorTableConfig,
    env: Env,
    cur: RegisterView,
    next: RegisterView,
    k: int,
    rs: crate::plonk::circuit::Column<crate::plonk::circuit::Advice>,
    gamma: nat,
    v: nat,
)
    requires
        cells_match(config, env, cur, next),
        0 <= k < 8,
        sel(env, config.s_rs) == 0 || ({
            let ci = cur.current_instruction;
            &&& ci == opcode_at(opcode_index(ci)) as nat
            &&& adv(env, rs, 1) == (if ci == opcode_at(k) as nat {
                crate::linkage::rs_step(gamma, adv(env, rs, 0), v)
            } else {
                adv(env, rs, 0)
            })
        }),
    ensures
        config.rs_gate(env, opcode_at(k), rs, gamma, v) == 0,
{
    let ci = cur.current_instruction;
    let take = fr_sub(adv(env, rs, 1), crate::linkage::rs_step(gamma, adv(env, rs, 0), v));
    let keep = fr_sub(adv(env, rs, 1), adv(env, rs, 0));
    let both = fr_add(
        fr_mul(deselector(ci, opcode_at(k)), take),
        fr_mul(fr_sub(ci, opcode_at(k) as nat), keep),
    );
    lemma_mul_zero(both);
    lemma_mul_zero(sel(env, config.s_rs));
    if sel(env, config.s_rs) != 0 {
        let j = opcode_index(ci);
        lemma_deselectors(j);
        lemma_mul_zero(take);
        lemma_mul_zero(keep);
        lemma_mul_zero(deselector(ci, opcode_at(k)));
        lemma_mul_zero(fr_sub(ci, opcode_at(k) as nat));
        if j == k {
            assert(take == 0);
        } else {
            assert(keep == 0);
        }
        assert(both == 0);
    }
}

/// In every state the register holds the inverse of the memory value, or
/// zero where there is none.
pub proof fn lemma_inverse_of_register(code: Seq<nat>, input: Seq<nat>, bits: u64, n: nat, k: nat)
    requires
        k <= n,
    ensures
        vm_at(code, input, bits, k).register.memory_value_inverse
            == crate::bn256::fr::fr_inverse_or_zero(vm_at(code, input, bits, k).register.memory_value),
{
    lemma_inverse_or_zero(0);
    if k > 0 {
        let s = vm_at(code, input, bits, (k - 1) as nat);
        assert(vm_at(code, input, bits, k) == vm_step(code, bits, s));
    }
}


/// The eight opcodes are eight different numbers, and the deselector of
/// each vanishes at the seven others.
pub proof fn lemma_deselectors(j: int)
    requires
        0 <= j < 8,
    ensures
        forall|k: int|
            0 <= k < 8 && k != j ==> #[trigger] deselector(opcode_at(j) as nat, opcode_at(k)) == 0,
{
    assert forall|k: int| 0 <= k < 8 && k != j implies #[trigger] deselector(
        opcode_at(j) as nat,
        opcode_at(k),
    ) == 0 by {
        lemma_deselector_other(j, opcode_at(k));
    }
}

/// The place of the instruction of a running machine in the order of
/// opcodes.
pub open spec fn opcode_index(ci: nat) -> int {
    if ci == code::SHL as nat {
        0
    } else if ci == code::SHR as nat {
        1
    } else if ci == code::ADD as nat {
        2
    } else if ci == code::SUB as nat {
        3
    } else if ci == code::GETCHAR as nat {
        4
    } else if ci == code::PUTCHAR as nat {
        5
    } else if ci == code::LB as nat {
        6
    } else {
        7
    }
}

/// What the gates rest on for row `row`: the first row holds the registers
/// of a machine that has not started; every row of the table holds the
/// inverse of its memory value; and every row before the last is followed
/// by the registers one cycle later.
pub proof fn lemma_row_facts(
    config: ProcessorTableConfig,
    w: &Witness,
    before: &Witness,
    matrix: &Matrix,
    challenges: BFChallenge,
    code: Seq<nat>,
    input: Seq<nat>,
    bits: u64,
    n: nat,
    row: int,
)
    requires
        processor_setting(config, w, before, matrix, challenges, code, input, bits, n),
        0 <= row <= n,
    ensures
        ({
            let cur = row_registers(matrix, row);
            let next = row_registers(matrix, row + 1);
            &&& row == 0 ==> cur.cycle == 0 && cur.instruction_pointer == 0 && cur.memory_pointer
                == 0 && cur.memory_value == 0
            &&& inverse_held(cur)
            &&& row < n ==> is_step(bits, cur, next)
        }),
{
    reveal(processor_setting);
    let registers = register_views(matrix.processor_matrix@);
    let s = vm_at(code, input, bits, row as nat);
    let cur = row_registers(matrix, row);
    assert(registers.len() == n + 1);
    assert(matrix.processor_matrix@.len() == n + 1);
    assert(registers[row] == matrix.processor_matrix@[row]@);
    assert(registers[row] == s.register);
    assert(runs_for(code, input, bits, row as nat));
    lemma_memory_in_range(code, input, bits, row as nat);
    lemma_inverse_of_register(code, input, bits, n, row as nat);
    lemma_inverse_or_zero(cur.memory_value);
    vstd::arithmetic::power2::lemma_pow2_pos(bits as nat);
    if row < n {
        assert(registers[row + 1] == matrix.processor_matrix@[row + 1]@);
        assert(registers[row + 1] == vm_at(code, input, bits, (row + 1) as nat).register);
        assert(runs_for(code, input, bits, (row + 1) as nat));
        assert(vm_status(code, s) == Status::Running);
        lemma_vm_consistent(code, input, bits, row as nat);
        lemma_register_cells(code, input, bits, row as nat);
        lemma_memory_in_range(code, input, bits, (row + 1) as nat);
        lemma_opcode_step(code, bits, s);
        vstd::std_specs::vec::axiom_spec_len(&matrix.program);
        vstd::arithmetic::power2::lemma2_to64();
        vstd::arithmetic::power2::lemma2_to64_rest();
        if bits < 63 {
            vstd::arithmetic::power2::lemma_pow2_strictly_increases(bits as nat, 63);
        }
        lemma_small_mod(cur.memory_value + 1, fr_modulus());
        if cur.memory_value > 0 {
            lemma_small_mod((cur.memory_value - 1) as nat, fr_modulus());
        }
    }
}

/// What the four accumulator columns hold on row `row` and the row after
/// it, up to the row after the table's last.
pub proof fn lemma_accumulator_cells(
    config: ProcessorTableConfig,
    w: &Witness,
    before: &Witness,
    matrix: &Matrix,
    challenges: BFChallenge,
    code: Seq<nat>,
    input: Seq<nat>,
    bits: u64,
    n: nat,
    row: int,
)
    requires
        processor_setting(config, w, before, matrix, challenges, code, input, bits, n),
        0 <= row <= n,
    ensures
        ({
            let env = w.env(row);
            let registers = register_views(matrix.processor_matrix@);
            let ch = ProcessorTableConfig::challenge_values(before, challenges);
            let acc = ProcessorTableConfig::accumulated(registers, ch, row);
            let next = ProcessorTableConfig::accumulated(registers, ch, row + 1);
            &&& adv(env, config.mem_prp, 0) == acc.mem_prp
            &&& adv(env, config.inst_prp, 0) == acc.inst_prp
            &&& adv(env, config.output_rs, 0) == acc.output_rs
            &&& adv(env, config.input_rs, 0) == acc.input_rs
            &&& adv(env, config.mem_prp, 1) == next.mem_prp
            &&& adv(env, config.inst_prp, 1) == next.inst_prp
            &&& adv(env, config.output_rs, 1) == next.output_rs
            &&& adv(env, config.input_rs, 1) == next.input_rs
            &&& next == ProcessorTableConfig::stepped(registers, ch, acc, row)
            &&& ProcessorTableConfig::mem_challenges(env, challenges) == ch.mem
            &&& ProcessorTableConfig::inst_challenges(env, challenges) == ch.inst
            &&& chal(env, challenges.challenges@[9]) == ch.out_gamma
            &&& chal(env, challenges.challenges@[10]) == ch.in_gamma
            &&& registers[row] == row_registers(matrix, row)
            &&& row < n ==> registers[row + 1] == row_registers(matrix, row + 1)
        }),
{
    reveal(processor_setting);
    let registers = register_views(matrix.processor_matrix@);
    let ch = ProcessorTableConfig::challenge_values(before, challenges);
    assert(registers.len() == n + 1);
    lemma_small_mod(row as nat, w.rows as nat);
    lemma_small_mod((row + 1) as nat, w.rows as nat);
    assert(rotated(row, 0, w.rows as int) == row);
    assert(rotated(row, 1, w.rows as int) == row + 1);
    assert(registers[row] == matrix.processor_matrix@[row]@);
    if row < n {
        assert(registers[row + 1] == matrix.processor_matrix@[row + 1]@);
    }
    ProcessorTableConfig::lemma_accumulated_step(registers, ch, row);
    assert(config.owns(config.mem_prp.index as int));
    assert(config.owns(config.inst_prp.index as int));
    assert(config.owns(config.output_rs.index as int));
    assert(config.owns(config.input_rs.index as int));
}

/// The memory value that the range check looks up is in the table on every
/// row.
pub proof fn lemma_processor_lookup(
    config: ProcessorTableConfig,
    w: &Witness,
    before: &Witness,
    matrix: &Matrix,
    challenges: BFChallenge,
    code: Seq<nat>,
    input: Seq<nat>,
    bits: u64,
    n: nat,
    row: int,
)
    requires
        processor_setting(config, w, before, matrix, challenges, code, input, bits, n),
        0 <= row < w.rows,
    ensures
        w.in_table(config.lookup_table.table.inner.index as int, config.lookup_input(w.env(row))),
{
    reveal(processor_setting);
    let env = w.env(row);
    let column = config.lookup_table.table.inner.index as int;
    lemma_processor_cells(config, w, before, matrix, challenges, code, input, bits, n, row);
    vstd::arithmetic::power2::lemma_pow2_pos(bits as nat);
    let mv = adv(env, config.mv, 0);
    lemma_mul_zero(mv);
    let v = config.lookup_input(env);
    if row <= n {
        let registers = register_views(matrix.processor_matrix@);
        assert(registers[row] == vm_at(code, input, bits, row as nat).register);
        assert(runs_for(code, input, bits, row as nat));
        lemma_memory_in_range(code, input, bits, row as nat);
        vstd::arithmetic::power2::lemma2_to64();
        vstd::arithmetic::power2::lemma2_to64_rest();
        if bits < 63 {
            vstd::arithmetic::power2::lemma_pow2_strictly_increases(bits as nat, 63);
        }
        assert(1 * mv == mv) by (nonlinear_arith);
        lemma_small_mod(mv, fr_modulus());
        assert(v == mv);
    } else {
        assert(v == 0);
    }
    assert(w.fixed_at(column, v as int) == v);
}

/// Every gate of the processor table vanishes on every row, and the range
/// check finds every memory value in its table.
pub proof fn lemma_processor_complete(
    config: ProcessorTableConfig,
    w: &Witness,
    before: &Witness,
    matrix: &Matrix,
    challenges: BFChallenge,
    code: Seq<nat>,
    input: Seq<nat>,
    bits: u64,
    n: nat,
    row: int,
)
    requires
        processor_setting(config, w, before, matrix, challenges, code, input, bits, n),
        0 <= row < w.rows,
    ensures
        forall|k: int| 0 <= k < 10 ==> #[trigger] config.first_phase_gate(k, w.env(row)) == 0,
        forall|k: int|
            0 <= k < 4 ==> #[trigger] config.second_phase_gate(k, w.env(row), challenges) == 0,
        w.in_table(config.lookup_table.table.inner.index as int, config.lookup_input(w.env(row))),
{
    let env = w.env(row);
    let cur = row_registers(matrix, row);
    let next = row_registers(matrix, row + 1);
    lemma_processor_cells(config, w, before, matrix, challenges, code, input, bits, n, row);
    lemma_processor_lookup(config, w, before, matrix, challenges, code, input, bits, n, row);
    if row + 1 >= w.rows {
        // the last row of the assignment: every selector is off, and what
        // the next row holds does not matter
        let any = RegisterView {
            cycle: adv(env, config.clk, 1),
            instruction_pointer: adv(env, config.ip, 1),
            current_instruction: 0,
            next_instruction: 0,
            memory_pointer: adv(env, config.mp, 1),
            memory_value: adv(env, config.mv, 1),
            memory_value_inverse: 0,
        };
        lemma_boundary_row(config, env, cur, any);
        lemma_p0_row(config, env, bits, cur, any);
        lemma_consistency_row(config, env, cur, any);
        lemma_p1_row(config, env, bits, cur, any);
        lemma_p2_row(config, env, bits, cur, any);
        lemma_p3_row(config, env, bits, cur, any);
        lemma_prp_row(sel(env, config.s_prp), 0, adv(env, config.mem_prp, 1), crate::linkage::prp_step(
            ProcessorTableConfig::mem_challenges(env, challenges),
            adv(env, config.mem_prp, 0),
            adv(env, config.clk, 0),
            adv(env, config.mp, 0),
            adv(env, config.mv, 0),
        ));
        lemma_prp_row(sel(env, config.s_prp), 0, adv(env, config.inst_prp, 1), crate::linkage::prp_step(
            ProcessorTableConfig::inst_challenges(env, challenges),
            adv(env, config.inst_prp, 0),
            adv(env, config.ip, 0),
            adv(env, config.ci, 0),
            adv(env, config.ni, 0),
        ));
        lemma_rs_row(config, env, cur, any, 5, config.output_rs, chal(env, challenges.challenges@[9]), adv(env, config.mv, 0));
        lemma_rs_row(config, env, cur, any, 4, config.input_rs, chal(env, challenges.challenges@[10]), adv(env, config.mv, 1));
    } else {
        if row <= n {
            lemma_row_facts(config, w, before, matrix, challenges, code, input, bits, n, row);
            lemma_accumulator_cells(config, w, before, matrix, challenges, code, input, bits, n, row);
        }
        lemma_boundary_row(config, env, cur, next);
        lemma_p0_row(config, env, bits, cur, next);
        lemma_consistency_row(config, env, cur, next);
        lemma_p1_row(config, env, bits, cur, next);
        lemma_p2_row(config, env, bits, cur, next);
        lemma_p3_row(config, env, bits, cur, next);
        lemma_prp_row(sel(env, config.s_prp), 0, adv(env, config.mem_prp, 1), crate::linkage::prp_step(
            ProcessorTableConfig::mem_challenges(env, challenges),
            adv(env, config.mem_prp, 0),
            adv(env, config.clk, 0),
            adv(env, config.mp, 0),
            adv(env, config.mv, 0),
        ));
        lemma_prp_row(sel(env, config.s_prp), 0, adv(env, config.inst_prp, 1), crate::linkage::prp_step(
            ProcessorTableConfig::inst_challenges(env, challenges),
            adv(env, config.inst_prp, 0),
            adv(env, config.ip, 0),
            adv(env, config.ci, 0),
            adv(env, config.ni, 0),
        ));
        lemma_rs_row(config, env, cur, next, 5, config.output_rs, chal(env, challenges.challenges@[9]), adv(env, config.mv, 0));
        lemma_rs_row(config, env, cur, next, 4, config.input_rs, chal(env, challenges.challenges@[10]), adv(env, config.mv, 1));
    }
}

} // verus!
