//! What holds of every execution and of every trace.

use crate::bn256::fr::fr_inverse_or_zero;
use crate::bn256::fr::fr_modulus;
use crate::code::values;
use crate::code::ADD;
use crate::code::GETCHAR;
use crate::code::LB;
use crate::code::PUTCHAR;
use crate::code::RB;
use crate::code::SHL;
use crate::code::SHR;
use crate::code::SUB;
use crate::interpreter::cell;
use crate::interpreter::is_trace;
use crate::interpreter::range_max;
use crate::interpreter::register_views;
use crate::interpreter::runs_for;
use crate::interpreter::unsorted_instructions;
use crate::interpreter::unsorted_memory;
use crate::interpreter::vm_at;
use crate::interpreter::vm_consistent;
use crate::interpreter::vm_status;
use crate::interpreter::vm_step;
use crate::interpreter::Status;
use crate::interpreter::VmState;
use crate::linkage::lemma_vm_consistent;
use crate::matrix::Matrix;
use crate::sort::SortKey;
use vstd::arithmetic::div_mod::lemma_small_mod;
use vstd::arithmetic::power2::lemma2_to64;
use vstd::arithmetic::power2::lemma_pow2_pos;
use vstd::arithmetic::power2::lemma_pow2_strictly_increases;
use vstd::arithmetic::power2::pow2;
use vstd::prelude::*;
use vstd::seq_lib::to_multiset_len;

verus! {

/// What each instruction does to the registers in one cycle of a running
/// machine: the clock advances by one; `<` and `>` move the memory pointer
/// by one and the other six leave it; `[`, `]` and `.` leave the memory
/// value, `+` and `-` change it by one, wrapping at `2^bits`, and `,` sets
/// it to the next input; the instruction pointer advances by one, but for
/// a bracket by two or to the bracket's operand.
pub proof fn lemma_opcode_step(code: Seq<nat>, bits: u64, s: VmState)
    requires
        vm_status(code, s) == Status::Running,
        vm_consistent(s),
    ensures
        ({
            let r = s.register;
            let t = vm_step(code, bits, s).register;
            let ci = r.current_instruction;
            let jump = cell(code, (r.instruction_pointer + 1) as int);
            &&& t.cycle == r.cycle + 1
            &&& t.current_instruction == cell(code, t.instruction_pointer as int)
            &&& t.next_instruction == cell(code, (t.instruction_pointer + 1) as int)
            &&& t.memory_value_inverse == fr_inverse_or_zero(t.memory_value)
            &&& ci == SHL as nat ==> t.memory_pointer == r.memory_pointer - 1
            &&& ci == SHR as nat ==> t.memory_pointer == r.memory_pointer + 1
            &&& ci != SHL as nat && ci != SHR as nat ==> t.memory_pointer == r.memory_pointer
            &&& ci == ADD as nat ==> t.memory_value == (if r.memory_value == range_max(bits) {
                0
            } else {
                crate::bn256::fr::fr_add(r.memory_value, 1)
            })
            &&& ci == SUB as nat ==> t.memory_value == (if r.memory_value == 0 {
                range_max(bits)
            } else {
                crate::bn256::fr::fr_sub(r.memory_value, 1)
            })
            &&& ci == GETCHAR as nat ==> t.memory_value == s.input[0]
            &&& ci == PUTCHAR as nat || ci == LB as nat || ci == RB as nat ==> t.memory_value
                == r.memory_value
            &&& ci == LB as nat ==> t.instruction_pointer == (if r.memory_value == 0 {
                jump
            } else {
                r.instruction_pointer + 2
            })
            &&& ci == RB as nat ==> t.instruction_pointer == (if r.memory_value != 0 {
                jump
            } else {
                r.instruction_pointer + 2
            })
            &&& ci != LB as nat && ci != RB as nat ==> t.instruction_pointer
                == r.instruction_pointer + 1
        }),
{
}

/// What the machine writes is what `.` saw, and what it reads is taken
/// from the front of the input, in one cycle of a running machine.
pub proof fn lemma_opcode_streams(code: Seq<nat>, bits: u64, s: VmState)
    requires
        vm_status(code, s) == Status::Running,
    ensures
        ({
            let t = vm_step(code, bits, s);
            let ci = s.register.current_instruction;
            &&& ci == PUTCHAR as nat ==> t.written == s.written.push(s.register.memory_value)
            &&& ci != PUTCHAR as nat ==> t.written == s.written
            &&& ci == GETCHAR as nat ==> t.read == s.read.push(s.input[0]) && t.input
                == s.input.remove(0)
            &&& ci != GETCHAR as nat ==> t.read == s.read && t.input == s.input
        }),
{
}

/// The program of `count` increments.
pub open spec fn increments(count: nat) -> Seq<nat> {
    Seq::new(count, |i: int| ADD as nat)
}

/// Incrementing a cell `2^bits` times brings it back to zero, and on the
/// way it holds `0, 1, .., 2^bits - 1`: after `k` of the `2^bits`
/// increments the machine has run `k` cycles and the cell holds `k`, or
/// zero after the last; no value on the way reaches `2^bits`. After the
/// last increment the machine halts.
pub proof fn lemma_wraparound(input: Seq<nat>, bits: u64, k: nat)
    requires
        bits < 64,
        k <= pow2(bits as nat),
    ensures
        ({
            let code = increments(pow2(bits as nat));
            let s = vm_at(code, input, bits, k);
            &&& runs_for(code, input, bits, k)
            &&& s.register.instruction_pointer == k
            &&& s.register.memory_pointer == 0
            &&& s.memory.len() == 1
            &&& s.memory[0] == s.register.memory_value
            &&& s.register.memory_value == (if k < pow2(bits as nat) {
                k
            } else {
                0
            })
            &&& s.register.memory_value < pow2(bits as nat)
            &&& k == pow2(bits as nat) ==> vm_status(code, s) == Status::Halted
        }),
    decreases k,
{
    let range = pow2(bits as nat);
    let code = increments(range);
    lemma_pow2_pos(bits as nat);
    if k > 0 {
        let j = (k - 1) as nat;
        lemma_wraparound(input, bits, j);
        let s = vm_at(code, input, bits, j);
        assert(cell(code, j as int) == ADD as nat);
        assert(s.register.current_instruction == ADD as nat) by {
            crate::linkage::lemma_register_cells(code, input, bits, j);
        }
        assert(vm_status(code, s) == Status::Running);
        assert(range <= 0x8000_0000_0000_0000) by {
            lemma2_to64();
            vstd::arithmetic::power2::lemma2_to64_rest();
            if bits < 63 {
                lemma_pow2_strictly_increases(bits as nat, 63);
            }
        }
        lemma_small_mod(j + 1, fr_modulus());
        assert forall|i: nat| i < k implies vm_status(code, #[trigger] vm_at(code, input, bits, i))
            == Status::Running by {
            if i == j {
            } else {
                assert(runs_for(code, input, bits, j));
            }
        }
    }
}

/// While the machine runs on inputs below `2^bits`, every memory cell stays
/// below `2^bits`.
pub proof fn lemma_memory_in_range(code: Seq<nat>, input: Seq<nat>, bits: u64, n: nat)
    requires
        bits < 64,
        runs_for(code, input, bits, n),
        forall|i: int| 0 <= i < input.len() ==> #[trigger] input[i] < pow2(bits as nat),
    ensures
        ({
            let s = vm_at(code, input, bits, n);
            &&& forall|c: int| 0 <= c < s.memory.len() ==> #[trigger] s.memory[c] < pow2(bits as nat)
            &&& forall|i: int| 0 <= i < s.input.len() ==> #[trigger] s.input[i] < pow2(bits as nat)
            &&& s.register.memory_value < pow2(bits as nat)
        }),
    decreases n,
{
    let range = pow2(bits as nat);
    lemma_pow2_pos(bits as nat);
    if n > 0 {
        let j = (n - 1) as nat;
        assert(runs_for(code, input, bits, j));
        lemma_memory_in_range(code, input, bits, j);
        lemma_vm_consistent(code, input, bits, j);
        lemma_vm_consistent(code, input, bits, n);
        let s = vm_at(code, input, bits, j);
        let t = vm_at(code, input, bits, n);
        assert(vm_status(code, s) == Status::Running);
        let v = s.memory[s.register.memory_pointer as int];
        assert(range <= 0x8000_0000_0000_0000) by {
            lemma2_to64();
            vstd::arithmetic::power2::lemma2_to64_rest();
            if bits < 63 {
                lemma_pow2_strictly_increases(bits as nat, 63);
            }
        }
        lemma_small_mod(v + 1, fr_modulus());
        if v > 0 {
            lemma_small_mod((v - 1) as nat, fr_modulus());
        }
        assert forall|c: int| 0 <= c < t.memory.len() implies #[trigger] t.memory[c] < range by {
            if c < s.memory.len() && c != s.register.memory_pointer {
                assert(t.memory[c] == s.memory[c]);
            }
        }
        assert forall|i: int| 0 <= i < t.input.len() implies #[trigger] t.input[i] < range by {
            if t.input != s.input {
                assert(t.input[i] == s.input[i + 1]);
            }
        }
    }
}

/// Every trace starts with the clock, both pointers and the memory value at
/// zero; its processor and memory tables have one row per cycle and one for
/// the state it stopped in; its instruction table has these and one row per
/// address of the program before them, all sorted in by address; and its
/// memory table is sorted by memory pointer.
pub proof fn lemma_boundary(matrix: Matrix, code: Seq<nat>, input: Seq<nat>, bits: u64, n: nat)
    requires
        is_trace(matrix, code, input, bits, n),
    ensures
        matrix.processor_matrix@.len() == n + 1,
        matrix.processor_matrix@[0].cycle@ == 0,
        matrix.processor_matrix@[0].instruction_pointer@ == 0,
        matrix.processor_matrix@[0].memory_pointer@ == 0,
        matrix.processor_matrix@[0].memory_value@ == 0,
        matrix.memory_matrix@.len() == n + 1,
        matrix.instruction_matrix@.len() == code.len() + n + 1,
        matrix.instruction_matrix@.len() >= code.len(),
        forall|i: int, j: int|
            0 <= i < j < matrix.instruction_matrix@.len() ==> (
            #[trigger] matrix.instruction_matrix@[i]).instruction_pointer@ <= (
            #[trigger] matrix.instruction_matrix@[j]).instruction_pointer@,
        forall|i: int, j: int|
            0 <= i < j < matrix.memory_matrix@.len() ==> (
            #[trigger] matrix.memory_matrix@[i]).memory_pointer@ <= (
            #[trigger] matrix.memory_matrix@[j]).memory_pointer@,
        values(matrix.program@) == code,
{
    let registers = register_views(matrix.processor_matrix@);
    assert(registers[0] == matrix.processor_matrix@[0]@);
    to_multiset_len(matrix.memory_matrix@);
    to_multiset_len(unsorted_memory(registers));
    to_multiset_len(matrix.instruction_matrix@);
    to_multiset_len(unsorted_instructions(code, registers));
    assert forall|i: int, j: int| 0 <= i < j < matrix.instruction_matrix@.len() implies (
    #[trigger] matrix.instruction_matrix@[i]).instruction_pointer@ <= (
    #[trigger] matrix.instruction_matrix@[j]).instruction_pointer@ by {
        assert(matrix.instruction_matrix@[i].key() <= matrix.instruction_matrix@[j].key());
    }
    assert forall|i: int, j: int| 0 <= i < j < matrix.memory_matrix@.len() implies (
    #[trigger] matrix.memory_matrix@[i]).memory_pointer@ <= (
    #[trigger] matrix.memory_matrix@[j]).memory_pointer@ by {
        assert(matrix.memory_matrix@[i].key() <= matrix.memory_matrix@[j].key());
    }
}

} // verus!
