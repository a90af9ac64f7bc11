//! The trace of an execution that halted satisfies the whole circuit.

use crate::code::values;
use crate::completeness::field::inverses_for;
use crate::completeness::field::lemma_inverses_for;
use crate::completeness::instruction::instruction_setting;
use crate::completeness::instruction::lemma_instruction_complete;
use crate::completeness::memory::lemma_memory_complete;
use crate::completeness::memory::memory_setting;
use crate::completeness::processor::lemma_processor_complete;
use crate::completeness::processor::processor_setting;
use crate::completeness::streams::lemma_running_sum_gate;
use crate::interpreter::is_trace;
use crate::interpreter::runs_for;
use crate::interpreter::vm_at;
use crate::interpreter::vm_status;
use crate::interpreter::Status;
use crate::invariants::lemma_boundary;
use crate::main_config::advice_cell;
use crate::main_config::MainConfig;
use crate::matrix::Matrix;
use crate::plonk::constraint_system::ConstraintSystem;
use crate::plonk::expression::Env;
use crate::plonk::witness::Witness;
use vstd::arithmetic::power2::pow2;
use vstd::prelude::*;

verus! {

/// `cs` holds the gates and the lookup of the circuit that `config`
/// describes, and nothing else.
#[verifier::opaque]
pub open spec fn is_circuit(config: MainConfig, cs: &ConstraintSystem) -> bool {
    &&& config.well_formed()
    &&& cs.gates@.len() == 27
    &&& forall|k: int| 0 <= k < 27 ==> (#[trigger] cs.gates@[k]).polys@.len() == 1
    &&& forall|k: int, env: Env|
        0 <= k < 27 ==> #[trigger] cs.gates@[k].polys@[0].value(env) == config.gate(k, env)
    &&& cs.lookups@.len() == 1
    &&& cs.lookups@[0].table == config.p_config.lookup_table.table
    &&& forall|env: Env| #[trigger]
        cs.lookups@[0].input.value(env) == config.p_config.lookup_input(env)
}

/// `w` is what loading `matrix` into the blank assignment `before` leaves,
/// with the public hash set to the hash that loading computed.
#[verifier::opaque]
pub open spec fn is_loaded(config: MainConfig, w: &Witness, before: &Witness, matrix: &Matrix) -> bool {
    &&& before.blank()
    &&& config.fits(before, matrix)
    &&& config.shows(w, before, matrix)
    &&& config.accumulators_loaded(before, w, matrix)
    &&& w.copies@ == config.linked_cells(matrix)
    &&& w.advice_at(config.hash.index as int, 0) == w.instance_at(
        config.expected_hash.index as int,
        0,
    )
}

/// The execution of `code` on `input` halts after `n` cycles at the end of
/// the program; `matrix` is its trace; memory values are as wide as the
/// circuit's range check allows, and so are the inputs. With more than
/// eight bits the values a cell may hold must have inverses, which they
/// have in a prime field.
#[verifier::opaque]
pub open spec fn is_honest(
    config: MainConfig,
    matrix: &Matrix,
    code: Seq<nat>,
    input: Seq<nat>,
    bits: u64,
    n: nat,
) -> bool {
    &&& is_trace(*matrix, code, input, bits, n)
    &&& runs_for(code, input, bits, n)
    &&& vm_status(code, vm_at(code, input, bits, n)) == Status::Halted
    &&& vm_at(code, input, bits, n).register.instruction_pointer == code.len()
    &&& code.len() > 0
    &&& bits < 64
    &&& config.p_config.lookup_table.range == pow2(bits as nat)
    &&& n <= u64::MAX
    &&& forall|i: int| 0 <= i < input.len() ==> #[trigger] input[i] < pow2(bits as nat)
    &&& inverses_for(bits)
}

/// What the proofs on the single tables assume holds of each table.
proof fn lemma_settings(
    config: MainConfig,
    w: &Witness,
    before: &Witness,
    matrix: &Matrix,
    code: Seq<nat>,
    input: Seq<nat>,
    bits: u64,
    n: nat,
)
    requires
        config.well_formed(),
        is_loaded(config, w, before, matrix),
        is_honest(config, matrix, code, input, bits, n),
    ensures
        processor_setting(config.p_config, w, before, matrix, config.challenges, code, input, bits, n),
        memory_setting(config.m_config, w, before, matrix, config.prp_arg(), code, input, bits, n),
        instruction_setting(config.i_config, w, before, matrix, config.challenges, code, input, bits, n),
        w.rows == before.rows,
        w.challenges == before.challenges,
        matrix.output_matrix@.len() < w.rows,
        matrix.input_matrix@.len() < w.rows,
        matrix.program@.len() < w.rows,
{
    reveal(is_loaded);
    reveal(is_honest);
    lemma_inverses_for(bits);
    reveal(processor_setting);
    reveal(memory_setting);
    reveal(instruction_setting);
    lemma_boundary(*matrix, code, input, bits, n);
    let len = matrix.processor_matrix@.len() as int;
    assert(config.p_config.row_fits(
        before.rows as int,
        before.advice@.len() as int,
        before.selectors@.len() as int,
        matrix,
        len - 1,
    ));
}

/// Every gate of the circuit vanishes on every row.
proof fn lemma_gates_hold(
    config: MainConfig,
    w: &Witness,
    before: &Witness,
    matrix: &Matrix,
    code: Seq<nat>,
    input: Seq<nat>,
    bits: u64,
    n: nat,
    k: int,
    row: int,
)
    requires
        config.well_formed(),
        is_loaded(config, w, before, matrix),
        is_honest(config, matrix, code, input, bits, n),
        0 <= k < 27,
        0 <= row < w.rows,
    ensures
        config.gate(k, w.env(row)) == 0,
{
    reveal(is_loaded);
    lemma_settings(config, w, before, matrix, code, input, bits, n);
    let env = w.env(row);
    if k < 10 {
        lemma_processor_complete(
            config.p_config,
            w,
            before,
            matrix,
            config.challenges,
            code,
            input,
            bits,
            n,
            row,
        );
        assert(config.p_config.first_phase_gate(k, env) == 0);
    } else if k < 13 {
        lemma_memory_complete(
            config.m_config,
            w,
            before,
            matrix,
            config.prp_arg(),
            code,
            input,
            bits,
            n,
            row,
        );
        assert(config.m_config.gate(k - 10, env) == 0);
    } else if k < 16 {
        lemma_instruction_complete(
            config.i_config,
            w,
            before,
            matrix,
            config.challenges,
            code,
            input,
            bits,
            n,
            row,
        );
        assert(config.i_config.gate(k - 13, env) == 0);
    } else if k == 16 {
        lemma_memory_complete(
            config.m_config,
            w,
            before,
            matrix,
            config.prp_arg(),
            code,
            input,
            bits,
            n,
            row,
        );
    } else if k < 21 {
        lemma_processor_complete(
            config.p_config,
            w,
            before,
            matrix,
            config.challenges,
            code,
            input,
            bits,
            n,
            row,
        );
        assert(config.p_config.second_phase_gate(k - 17, env, config.challenges) == 0);
    } else if k < 24 {
        lemma_instruction_complete(
            config.i_config,
            w,
            before,
            matrix,
            config.challenges,
            code,
            input,
            bits,
            n,
            row,
        );
        assert(config.i_config.second_phase_gate(k - 21, env, config.challenges) == 0);
    } else if k == 24 {
        lemma_running_sum_gate(
            w,
            before,
            config.output_config.val,
            config.output_config.rs,
            config.output_config.s_rs,
            config.challenges.challenges@[9],
            values(matrix.output_matrix@),
            row,
        );
    } else if k == 25 {
        lemma_running_sum_gate(
            w,
            before,
            config.input_config.val,
            config.input_config.rs,
            config.input_config.s_rs,
            config.challenges.challenges@[10],
            values(matrix.input_matrix@),
            row,
        );
    } else {
        lemma_running_sum_gate(
            w,
            before,
            config.program_config.code,
            config.program_config.code_rs,
            config.program_config.s_rs,
            config.challenges.challenges@[8],
            values(matrix.program@),
            row,
        );
    }
}

/// Completeness: the trace of an execution that halted at the end of its
/// program, loaded into a blank assignment of the circuit with the public
/// hash set to the hash of program and input, satisfies the circuit: every
/// gate vanishes on every row, every memory value is found in the range
/// table, and the cells constrained equal hold equal values.
pub proof fn lemma_complete(
    config: MainConfig,
    cs: &ConstraintSystem,
    w: &Witness,
    before: &Witness,
    matrix: &Matrix,
    code: Seq<nat>,
    input: Seq<nat>,
    bits: u64,
    n: nat,
)
    requires
        is_circuit(config, cs),
        is_loaded(config, w, before, matrix),
        is_honest(config, matrix, code, input, bits, n),
    ensures
        w.satisfies(cs),
{
    reveal(is_circuit);
    lemma_settings(config, w, before, matrix, code, input, bits, n);
    assert forall|g: int, row: int| 0 <= g < cs.gates@.len() && 0 <= row < w.rows implies (
    #[trigger] cs.gates@[g]).holds(#[trigger] w.env(row)) by {
        lemma_gates_hold(config, w, before, matrix, code, input, bits, n, g, row);
        assert(cs.gates@[g].polys@[0].value(w.env(row)) == config.gate(g, w.env(row)));
    }
    assert forall|l: int, row: int| 0 <= l < cs.lookups@.len() && 0 <= row < w.rows implies w.in_table(
        (#[trigger] cs.lookups@[l]).table.inner.index as int,
        cs.lookups@[l].input.value(#[trigger] w.env(row)),
    ) by {
        lemma_processor_complete(
            config.p_config,
            w,
            before,
            matrix,
            config.challenges,
            code,
            input,
            bits,
            n,
            row,
        );
    }
    lemma_copies_hold(config, w, before, matrix, code, input, bits, n);
}

/// The cells constrained equal hold equal values.
proof fn lemma_copies_hold(
    config: MainConfig,
    w: &Witness,
    before: &Witness,
    matrix: &Matrix,
    code: Seq<nat>,
    input: Seq<nat>,
    bits: u64,
    n: nat,
)
    requires
        config.well_formed(),
        is_loaded(config, w, before, matrix),
        is_honest(config, matrix, code, input, bits, n),
    ensures
        forall|k: int|
            0 <= k < w.copies@.len() ==> w.cell_value((#[trigger] w.copies@[k]).0) == w.cell_value(
                w.copies@[k].1,
            ),
{
    reveal(is_loaded);
    reveal(is_honest);
    config.lemma_trace_agrees(before, matrix, code, input, bits, n);
    config.lemma_links_hold(before, w, matrix);
    let cells = config.linked_cells(matrix);
    assert forall|k: int| 0 <= k < w.copies@.len() implies w.cell_value(
        (#[trigger] w.copies@[k]).0,
    ) == w.cell_value(w.copies@[k].1) by {
        if k == 0 {
            assert(cells[0].0 == advice_cell(config.hash, 0));
        } else {
            assert(w.cell_value(cells[k].0) == w.cell_value(cells[k].1));
        }
    }
}

} // verus!
