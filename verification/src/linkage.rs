//! The accumulators that tie the tables together, and the proofs that the
//! tables of one execution agree on them.
//!
//! A permutation running product multiplies one factor per row, so it does
//! not depend on the order of the rows. A running sum folds a stream of
//! values in order. The processor table computes each accumulator from its
//! own rows; another table computes it again from its rows; the two results
//! are equal whenever both tables come from the same execution.

use crate::bn256::fr::fr_add;
use crate::bn256::fr::fr_modulus;
use crate::bn256::fr::fr_mul;
use crate::bn256::fr::fr_sub;
use crate::code::values;
use crate::code::GETCHAR;
use crate::code::PUTCHAR;
use crate::interpreter::is_trace;
use crate::interpreter::register_views;
use crate::interpreter::runs_for;
use crate::interpreter::trace_registers;
use crate::interpreter::unsorted_memory;
use crate::interpreter::vm_at;
use crate::interpreter::vm_consistent;
use crate::interpreter::vm_status;
use crate::interpreter::RegisterView;
use crate::interpreter::Status;
use crate::matrix::InstructionMatrixRow;
use crate::matrix::Matrix;
use crate::matrix::MemoryMatrixRow;
use vstd::arithmetic::div_mod::lemma_mul_mod_noop_left;
use vstd::prelude::*;
use vstd::seq_lib::commutative_foldl;
use vstd::seq_lib::lemma_fold_left_permutation;

verus! {

/// The four challenges of a permutation running product.
pub struct PrpChallenges {
    pub alpha: nat,
    pub d: nat,
    pub e: nat,
    pub f: nat,
}

/// The factor of one row: `alpha - d*a - e*b - f*c`.
pub open spec fn prp_factor(ch: PrpChallenges, a: nat, b: nat, c: nat) -> nat {
    fr_sub(fr_sub(fr_sub(ch.alpha, fr_mul(ch.d, a)), fr_mul(ch.e, b)), fr_mul(ch.f, c))
}

/// The running product after one more row.
pub open spec fn prp_step(ch: PrpChallenges, acc: nat, a: nat, b: nat, c: nat) -> nat {
    fr_mul(acc, prp_factor(ch, a, b, c))
}

/// The running sum after one more value: `acc * gamma + v`.
pub open spec fn rs_step(gamma: nat, acc: nat, v: nat) -> nat {
    fr_add(fr_mul(acc, gamma), v)
}

/// `rs_step` as a function to fold with.
pub open spec fn rs_fn(gamma: nat) -> spec_fn(nat, nat) -> nat {
    |acc: nat, v: nat| rs_step(gamma, acc, v)
}

/// The running sum of a stream of values, from zero.
pub open spec fn running_sum(stream: Seq<nat>, gamma: nat) -> nat {
    stream.fold_left(0nat, rs_fn(gamma))
}

/// The step of the memory running product on a register.
pub open spec fn register_mem_fn(ch: PrpChallenges) -> spec_fn(nat, RegisterView) -> nat {
    |acc: nat, r: RegisterView| prp_step(ch, acc, r.cycle, r.memory_pointer, r.memory_value)
}

/// The step of the instruction running product on a register.
pub open spec fn register_inst_fn(ch: PrpChallenges) -> spec_fn(nat, RegisterView) -> nat {
    |acc: nat, r: RegisterView|
        prp_step(ch, acc, r.instruction_pointer, r.current_instruction, r.next_instruction)
}

/// The processor table's memory running product over all its rows.
pub open spec fn processor_mem_prp(registers: Seq<RegisterView>, init: nat, ch: PrpChallenges) -> nat {
    registers.fold_left(init, register_mem_fn(ch))
}

/// The processor table's instruction running product over all its rows.
pub open spec fn processor_inst_prp(registers: Seq<RegisterView>, init: nat, ch: PrpChallenges) -> nat {
    registers.fold_left(init, register_inst_fn(ch))
}

/// The processor table's output running sum over its first `n` rows: a row
/// that executes `.` adds its memory value.
pub open spec fn processor_output_rs(registers: Seq<RegisterView>, gamma: nat, n: nat) -> nat
    decreases n,
{
    if n == 0 {
        0
    } else {
        let acc = processor_output_rs(registers, gamma, (n - 1) as nat);
        let r = registers[n - 1];
        if r.current_instruction == PUTCHAR as nat {
            rs_step(gamma, acc, r.memory_value)
        } else {
            acc
        }
    }
}

/// The processor table's input running sum over its first `n` rows: a row
/// that executes `,` adds the memory value of the row after it.
pub open spec fn processor_input_rs(registers: Seq<RegisterView>, gamma: nat, n: nat) -> nat
    decreases n,
{
    if n == 0 {
        0
    } else {
        let acc = processor_input_rs(registers, gamma, (n - 1) as nat);
        let r = registers[n - 1];
        if r.current_instruction == GETCHAR as nat {
            rs_step(gamma, acc, registers[n as int].memory_value)
        } else {
            acc
        }
    }
}

/// The step of the memory table's running product on one of its rows.
pub open spec fn memory_fn(ch: PrpChallenges) -> spec_fn(nat, MemoryMatrixRow) -> nat {
    |acc: nat, r: MemoryMatrixRow| prp_step(ch, acc, r.cycle@, r.memory_pointer@, r.memory_value@)
}

/// The memory table's running product over all its rows.
pub open spec fn memory_prp(rows: Seq<MemoryMatrixRow>, init: nat, ch: PrpChallenges) -> nat {
    rows.fold_left(init, memory_fn(ch))
}

/// The instruction pointer of the row after row `i` of the instruction
/// table; the last row stands in for the row after it.
pub open spec fn next_pointer(rows: Seq<InstructionMatrixRow>, i: int) -> nat {
    if i + 1 < rows.len() {
        rows[i + 1].instruction_pointer@
    } else {
        rows[i].instruction_pointer@
    }
}

/// The instruction table's running product over its first `n` rows: a row
/// followed by a row with the same instruction pointer contributes its
/// factor, and so does the last row.
pub open spec fn instruction_prp(
    rows: Seq<InstructionMatrixRow>,
    init: nat,
    ch: PrpChallenges,
    n: nat,
) -> nat
    decreases n,
{
    if n == 0 {
        init
    } else {
        let acc = instruction_prp(rows, init, ch, (n - 1) as nat);
        let r = rows[n - 1];
        if next_pointer(rows, n - 1) == r.instruction_pointer@ {
            prp_step(ch, acc, r.instruction_pointer@, r.current_instruction@, r.next_instruction@)
        } else {
            acc
        }
    }
}

/// The instruction table's code running sum over its first `n` rows: a row
/// followed by a row with another instruction pointer adds its instruction.
pub open spec fn instruction_rs(rows: Seq<InstructionMatrixRow>, gamma: nat, n: nat) -> nat
    decreases n,
{
    if n == 0 {
        0
    } else {
        let acc = instruction_rs(rows, gamma, (n - 1) as nat);
        let r = rows[n - 1];
        if next_pointer(rows, n - 1) != r.instruction_pointer@ {
            rs_step(gamma, acc, r.current_instruction@)
        } else {
            acc
        }
    }
}

/// Multiplying by two factors gives the same in either order.
pub proof fn lemma_fr_mul_swap(v: nat, a: nat, b: nat)
    ensures
        fr_mul(fr_mul(v, a), b) == fr_mul(fr_mul(v, b), a),
{
    let p = fr_modulus() as int;
    lemma_mul_mod_noop_left((v * a) as int, b as int, p);
    lemma_mul_mod_noop_left((v * b) as int, a as int, p);
    assert((v * a) * b == (v * b) * a) by (nonlinear_arith);
}

/// Two folds agree where their steps agree row by row.
pub proof fn lemma_fold_left_pointwise<A, B>(
    s: Seq<A>,
    t: Seq<B>,
    h: spec_fn(nat, A) -> nat,
    f: spec_fn(nat, B) -> nat,
    init: nat,
)
    requires
        s.len() == t.len(),
        forall|acc: nat, i: int| 0 <= i < s.len() ==> #[trigger] h(acc, s[i]) == f(acc, t[i]),
    ensures
        s.fold_left(init, h) == t.fold_left(init, f),
    decreases s.len(),
{
    if s.len() > 0 {
        lemma_fold_left_pointwise(s.drop_last(), t.drop_last(), h, f, init);
        let acc = s.drop_last().fold_left(init, h);
        assert(h(acc, s[s.len() - 1]) == f(acc, t[s.len() - 1]));
    }
}

/// A running sum after one more value.
pub proof fn lemma_running_sum_push(stream: Seq<nat>, gamma: nat, v: nat)
    ensures
        running_sum(stream.push(v), gamma) == rs_step(gamma, running_sum(stream, gamma), v),
{
    assert(stream.push(v).drop_last() =~= stream);
}

/// The memory table's running product is that of the processor table: the
/// memory table holds the processor table's rows in another order, and a
/// product does not depend on the order of its factors.
proof fn lemma_memory_prp_permuted(
    matrix: Matrix,
    init: nat,
    ch: PrpChallenges,
)
    requires
        matrix.memory_matrix@.to_multiset() == unsorted_memory(
            register_views(matrix.processor_matrix@),
        ).to_multiset(),
    ensures
        memory_prp(matrix.memory_matrix@, init, ch) == processor_mem_prp(
            register_views(matrix.processor_matrix@),
            init,
            ch,
        ),
{
    let registers = register_views(matrix.processor_matrix@);
    let unsorted = unsorted_memory(registers);
    let f = memory_fn(ch);
    assert(commutative_foldl(f)) by {
        assert forall|x: MemoryMatrixRow, y: MemoryMatrixRow, v: nat| #[trigger]
            f(f(v, x), y) == f(f(v, y), x) by {
            lemma_fr_mul_swap(
                v,
                prp_factor(ch, x.cycle@, x.memory_pointer@, x.memory_value@),
                prp_factor(ch, y.cycle@, y.memory_pointer@, y.memory_value@),
            );
        }
    }
    lemma_fold_left_permutation(matrix.memory_matrix@, unsorted, f, init);
    assert forall|acc: nat, i: int| 0 <= i < unsorted.len() implies #[trigger] f(acc, unsorted[i])
        == register_mem_fn(ch)(acc, registers[i]) by {
        let r = matrix.processor_matrix@[i];
        assert(registers[i] == r@);
        r.cycle.lemma_from_nat_of_view();
        r.memory_pointer.lemma_from_nat_of_view();
        r.memory_value.lemma_from_nat_of_view();
    }
    lemma_fold_left_pointwise(unsorted, registers, f, register_mem_fn(ch), init);
}

/// While the machine runs, the memory pointer stays inside the memory and
/// the register holds the cell under it.
pub proof fn lemma_vm_consistent(code: Seq<nat>, input: Seq<nat>, bits: u64, n: nat)
    requires
        runs_for(code, input, bits, n),
    ensures
        vm_consistent(vm_at(code, input, bits, n)),
    decreases n,
{
    if n > 0 {
        lemma_vm_consistent(code, input, bits, (n - 1) as nat);
        let s = vm_at(code, input, bits, (n - 1) as nat);
        assert(vm_status(code, s) == Status::Running);
    }
}

/// After `k` cycles the processor table's output running sum over its first
/// `k` rows is the running sum of what was written.
pub proof fn lemma_output_rs_prefix(
    code: Seq<nat>,
    input: Seq<nat>,
    bits: u64,
    n: nat,
    gamma: nat,
    k: nat,
)
    requires
        runs_for(code, input, bits, n),
        k <= n,
    ensures
        processor_output_rs(trace_registers(code, input, bits, n), gamma, k) == running_sum(
            vm_at(code, input, bits, k).written,
            gamma,
        ),
    decreases k,
{
    if k > 0 {
        let j = (k - 1) as nat;
        lemma_output_rs_prefix(code, input, bits, n, gamma, j);
        let s = vm_at(code, input, bits, j);
        assert(vm_status(code, s) == Status::Running);
        assert(trace_registers(code, input, bits, n)[j as int] == s.register);
        if s.register.current_instruction == PUTCHAR as nat {
            lemma_running_sum_push(s.written, gamma, s.register.memory_value);
        }
    }
}

/// After `k` cycles the processor table's input running sum over its first
/// `k` rows is the running sum of what was read.
pub proof fn lemma_input_rs_prefix(
    code: Seq<nat>,
    input: Seq<nat>,
    bits: u64,
    n: nat,
    gamma: nat,
    k: nat,
)
    requires
        runs_for(code, input, bits, n),
        k <= n,
    ensures
        processor_input_rs(trace_registers(code, input, bits, n), gamma, k) == running_sum(
            vm_at(code, input, bits, k).read,
            gamma,
        ),
    decreases k,
{
    if k > 0 {
        let j = (k - 1) as nat;
        lemma_input_rs_prefix(code, input, bits, n, gamma, j);
        let s = vm_at(code, input, bits, j);
        assert(vm_status(code, s) == Status::Running);
        assert(runs_for(code, input, bits, j));
        lemma_vm_consistent(code, input, bits, j);
        assert(trace_registers(code, input, bits, n)[j as int] == s.register);
        assert(trace_registers(code, input, bits, n)[k as int] == vm_at(
            code,
            input,
            bits,
            k,
        ).register);
        if s.register.current_instruction == GETCHAR as nat {
            lemma_running_sum_push(s.read, gamma, s.input[0]);
        }
    }
}

/// For the trace of an execution that halted, the output table's running sum
/// is the processor table's output running sum, whatever the challenge.
pub proof fn lemma_output_rs_matches(
    matrix: Matrix,
    code: Seq<nat>,
    input: Seq<nat>,
    bits: u64,
    n: nat,
    gamma: nat,
)
    requires
        is_trace(matrix, code, input, bits, n),
        runs_for(code, input, bits, n),
        vm_status(code, vm_at(code, input, bits, n)) == Status::Halted,
    ensures
        running_sum(values(matrix.output_matrix@), gamma) == processor_output_rs(
            register_views(matrix.processor_matrix@),
            gamma,
            matrix.processor_matrix@.len(),
        ),
{
    lemma_output_rs_prefix(code, input, bits, n, gamma, n);
    lemma_halted_instruction(code, input, bits, n);
}

/// For the trace of an execution that halted, the input table's running sum
/// is the processor table's input running sum, whatever the challenge.
pub proof fn lemma_input_rs_matches(
    matrix: Matrix,
    code: Seq<nat>,
    input: Seq<nat>,
    bits: u64,
    n: nat,
    gamma: nat,
)
    requires
        is_trace(matrix, code, input, bits, n),
        runs_for(code, input, bits, n),
        vm_status(code, vm_at(code, input, bits, n)) == Status::Halted,
    ensures
        running_sum(values(matrix.input_matrix@), gamma) == processor_input_rs(
            register_views(matrix.processor_matrix@),
            gamma,
            matrix.processor_matrix@.len(),
        ),
{
    lemma_input_rs_prefix(code, input, bits, n, gamma, n);
    lemma_halted_instruction(code, input, bits, n);
}

/// In every state the register holds the cells at the instruction pointer
/// and after it; past the program both are zero.
pub proof fn lemma_register_cells(code: Seq<nat>, input: Seq<nat>, bits: u64, n: nat)
    ensures
        vm_at(code, input, bits, n).register.current_instruction == crate::interpreter::cell(
            code,
            vm_at(code, input, bits, n).register.instruction_pointer as int,
        ),
        vm_at(code, input, bits, n).register.next_instruction == crate::interpreter::cell(
            code,
            (vm_at(code, input, bits, n).register.instruction_pointer + 1) as int,
        ),
        vm_at(code, input, bits, n).register.cycle == n,
    decreases n,
{
    if n > 0 {
        lemma_register_cells(code, input, bits, (n - 1) as nat);
    }
}

/// A halted machine has no instruction in its register.
pub proof fn lemma_halted_instruction(code: Seq<nat>, input: Seq<nat>, bits: u64, n: nat)
    requires
        vm_status(code, vm_at(code, input, bits, n)) == Status::Halted,
    ensures
        vm_at(code, input, bits, n).register.current_instruction == 0,
        vm_at(code, input, bits, n).register.next_instruction == 0,
{
    lemma_register_cells(code, input, bits, n);
}

/// For the trace of any execution, the memory table's running product is
/// the processor table's memory running product, whatever the seed and the
/// challenges.
pub proof fn lemma_mem_prp_matches(
    matrix: Matrix,
    code: Seq<nat>,
    input: Seq<nat>,
    bits: u64,
    n: nat,
    init: nat,
    ch: PrpChallenges,
)
    requires
        is_trace(matrix, code, input, bits, n),
    ensures
        memory_prp(matrix.memory_matrix@, init, ch) == processor_mem_prp(
            register_views(matrix.processor_matrix@),
            init,
            ch,
        ),
{
    lemma_memory_prp_permuted(matrix, init, ch);
}

} // verus!
