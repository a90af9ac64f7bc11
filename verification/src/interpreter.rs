//! The trace generator: runs a compiled program and records every cycle.
//!
//! The machine is specified as a step function on numbers (`vm_step`); the
//! interpreter executes that function on field elements and fills the tables
//! of a `Matrix` from the states it passes through.

use crate::bn256::fr::fr_add;
use crate::bn256::fr::fr_inverse_or_zero;
use crate::bn256::fr::fr_modulus;
use crate::bn256::fr::fr_sub;
use crate::bn256::fr::Fr;
use crate::code::values;
use crate::code::ADD;
use crate::code::GETCHAR;
use crate::code::LB;
use crate::code::PUTCHAR;
use crate::code::RB;
use crate::code::SHL;
use crate::code::SHR;
use crate::code::SUB;
use crate::matrix::InstructionMatrixRow;
use crate::matrix::InstructionRowView;
use crate::matrix::Matrix;
use crate::matrix::MemoryMatrixRow;
use crate::sort::stable_sort_by_key;
use crate::sort::stably_sorted;
use crate::u256::limb;
use vstd::arithmetic::div_mod::lemma_small_mod;
use vstd::arithmetic::power2::pow2;
use vstd::prelude::*;

verus! {

/// The registers of one cycle, as numbers.
pub struct RegisterView {
    pub cycle: nat,
    pub instruction_pointer: nat,
    pub current_instruction: nat,
    pub next_instruction: nat,
    pub memory_pointer: nat,
    pub memory_value: nat,
    pub memory_value_inverse: nat,
}

/// The registers of one cycle.
#[derive(Clone, Copy, Debug)]
pub struct Register {
    pub cycle: Fr,
    pub instruction_pointer: Fr,
    pub current_instruction: Fr,
    pub next_instruction: Fr,
    pub memory_pointer: Fr,
    pub memory_value: Fr,
    pub memory_value_inverse: Fr,
}

impl View for Register {
    type V = RegisterView;

    open spec fn view(&self) -> RegisterView {
        RegisterView {
            cycle: self.cycle@,
            instruction_pointer: self.instruction_pointer@,
            current_instruction: self.current_instruction@,
            next_instruction: self.next_instruction@,
            memory_pointer: self.memory_pointer@,
            memory_value: self.memory_value@,
            memory_value_inverse: self.memory_value_inverse@,
        }
    }
}

impl Default for Register {
    fn default() -> (r: Register)
        ensures
            r@ == (RegisterView {
                cycle: 0,
                instruction_pointer: 0,
                current_instruction: 0,
                next_instruction: 0,
                memory_pointer: 0,
                memory_value: 0,
                memory_value_inverse: 0,
            }),
    {
        Register {
            cycle: Fr::zero(),
            instruction_pointer: Fr::zero(),
            current_instruction: Fr::zero(),
            next_instruction: Fr::zero(),
            memory_pointer: Fr::zero(),
            memory_value: Fr::zero(),
            memory_value_inverse: Fr::zero(),
        }
    }
}

impl Register {
    /// The instruction pointer as an index.
    pub fn ip(&self) -> (r: usize)
        requires
            self.instruction_pointer@ <= usize::MAX,
        ensures
            r == self.instruction_pointer@,
    {
        proof {
            lemma_small_mod(self.instruction_pointer@, limb());
        }
        self.instruction_pointer.get_lower_128() as usize
    }

    /// The memory pointer as an index.
    pub fn mp(&self) -> (r: usize)
        requires
            self.memory_pointer@ <= usize::MAX,
        ensures
            r == self.memory_pointer@,
    {
        proof {
            lemma_small_mod(self.memory_pointer@, limb());
        }
        self.memory_pointer.get_lower_128() as usize
    }
}

/// Why the machine stands where it stands.
#[derive(Clone, Copy, Debug, PartialEq, Eq, Structural)]
pub enum Status {
    /// The next instruction can be executed.
    Running,
    /// The instruction pointer has left the program.
    Halted,
    /// The next instruction reads input, and none is left.
    NeedsInput,
    /// The next instruction moves the memory pointer below cell zero.
    MemoryUnderflow,
    /// The next instruction is a bracket in the last cell of the program.
    MissingOperand,
    /// The cell at the instruction pointer is none of the eight instructions.
    IllegalInstruction,
}

/// The machine as numbers: the registers, the memory, the input not yet read,
/// and what was read and written so far.
pub struct VmState {
    pub register: RegisterView,
    pub memory: Seq<nat>,
    pub input: Seq<nat>,
    pub read: Seq<nat>,
    pub written: Seq<nat>,
}

/// The cell at address `i`, zero outside the program.
pub open spec fn cell(code: Seq<nat>, i: int) -> nat {
    if 0 <= i < code.len() {
        code[i]
    } else {
        0
    }
}

/// The largest memory value: `2^bits - 1`.
pub open spec fn range_max(bits: u64) -> nat {
    (pow2(bits as nat) - 1) as nat
}

/// The machine before the first cycle: everything zero, one memory cell.
pub open spec fn vm_init(code: Seq<nat>, input: Seq<nat>) -> VmState {
    VmState {
        register: RegisterView {
            cycle: 0,
            instruction_pointer: 0,
            current_instruction: cell(code, 0),
            next_instruction: cell(code, 1),
            memory_pointer: 0,
            memory_value: 0,
            memory_value_inverse: 0,
        },
        memory: seq![0nat],
        input,
        read: Seq::empty(),
        written: Seq::empty(),
    }
}

/// What the memory pointer, the memory and the register's copy of the
/// current cell must satisfy for a step to make sense.
pub open spec fn vm_consistent(s: VmState) -> bool {
    &&& s.register.memory_pointer < s.memory.len()
    &&& s.register.memory_value == s.memory[s.register.memory_pointer as int]
}

/// Whether the machine can take a step, and if not, why.
pub open spec fn vm_status(code: Seq<nat>, s: VmState) -> Status {
    let r = s.register;
    let ci = r.current_instruction;
    if r.instruction_pointer >= code.len() {
        Status::Halted
    } else if ci == SHL as nat {
        if r.memory_pointer == 0 {
            Status::MemoryUnderflow
        } else {
            Status::Running
        }
    } else if ci == GETCHAR as nat {
        if s.input.len() == 0 {
            Status::NeedsInput
        } else {
            Status::Running
        }
    } else if ci == LB as nat || ci == RB as nat {
        if r.instruction_pointer + 1 >= code.len() {
            Status::MissingOperand
        } else {
            Status::Running
        }
    } else if ci == SHR as nat || ci == ADD as nat || ci == SUB as nat || ci == PUTCHAR as nat {
        Status::Running
    } else {
        Status::IllegalInstruction
    }
}

/// The registers of the next cycle, given where the pointers went and what
/// the memory became.
pub open spec fn next_register(
    code: Seq<nat>,
    r: RegisterView,
    ip: nat,
    mp: nat,
    memory: Seq<nat>,
) -> RegisterView {
    RegisterView {
        cycle: r.cycle + 1,
        instruction_pointer: ip,
        current_instruction: cell(code, ip as int),
        next_instruction: cell(code, (ip + 1) as int),
        memory_pointer: mp,
        memory_value: memory[mp as int],
        memory_value_inverse: fr_inverse_or_zero(memory[mp as int]),
    }
}

/// The memory value after `+`: one more, back to zero from `2^bits - 1`.
pub open spec fn incremented(v: nat, bits: u64) -> nat {
    if v == range_max(bits) {
        0
    } else {
        fr_add(v, 1)
    }
}

/// The memory value after `-`: one less, from zero to `2^bits - 1`.
pub open spec fn decremented(v: nat, bits: u64) -> nat {
    if v == 0 {
        range_max(bits)
    } else {
        fr_sub(v, 1)
    }
}

/// One cycle of a running machine.
///
/// `<` and `>` move the memory pointer, `>` adding a zero cell at the end of
/// memory; `+` and `-` change the cell under it, wrapping at `2^bits`; `,`
/// stores the next input; `.` emits the cell; `[` jumps to its operand when
/// the cell is zero and `]` when it is not, and both step over their operand
/// otherwise. Every other instruction moves the instruction pointer by one.
pub open spec fn vm_step(code: Seq<nat>, bits: u64, s: VmState) -> VmState {
    let r = s.register;
    let ip = r.instruction_pointer;
    let mp = r.memory_pointer;
    let ci = r.current_instruction;
    let v = s.memory[mp as int];
    if ci == SHL as nat {
        VmState { register: next_register(code, r, ip + 1, (mp - 1) as nat, s.memory), ..s }
    } else if ci == SHR as nat {
        let memory = if mp + 1 == s.memory.len() {
            s.memory.push(0)
        } else {
            s.memory
        };
        VmState { register: next_register(code, r, ip + 1, mp + 1, memory), memory, ..s }
    } else if ci == ADD as nat {
        let memory = s.memory.update(mp as int, incremented(v, bits));
        VmState { register: next_register(code, r, ip + 1, mp, memory), memory, ..s }
    } else if ci == SUB as nat {
        let memory = s.memory.update(mp as int, decremented(v, bits));
        VmState { register: next_register(code, r, ip + 1, mp, memory), memory, ..s }
    } else if ci == GETCHAR as nat {
        let memory = s.memory.update(mp as int, s.input[0]);
        VmState {
            register: next_register(code, r, ip + 1, mp, memory),
            memory,
            input: s.input.remove(0),
            read: s.read.push(s.input[0]),
            ..s
        }
    } else if ci == PUTCHAR as nat {
        VmState {
            register: next_register(code, r, ip + 1, mp, s.memory),
            written: s.written.push(r.memory_value),
            ..s
        }
    } else if ci == LB as nat {
        let target = if v == 0 {
            cell(code, (ip + 1) as int)
        } else {
            ip + 2
        };
        VmState { register: next_register(code, r, target, mp, s.memory), ..s }
    } else {
        let target = if v != 0 {
            cell(code, (ip + 1) as int)
        } else {
            ip + 2
        };
        VmState { register: next_register(code, r, target, mp, s.memory), ..s }
    }
}

/// The machine after `n` cycles on `code` and `input`.
pub open spec fn vm_at(code: Seq<nat>, input: Seq<nat>, bits: u64, n: nat) -> VmState
    decreases n,
{
    if n == 0 {
        vm_init(code, input)
    } else {
        vm_step(code, bits, vm_at(code, input, bits, (n - 1) as nat))
    }
}

/// The machine can take each of its first `n` steps.
pub open spec fn runs_for(code: Seq<nat>, input: Seq<nat>, bits: u64, n: nat) -> bool {
    forall|k: nat| k < n ==> vm_status(code, #[trigger] vm_at(code, input, bits, k)) == Status::Running
}

/// The registers of cycles `0` to `n`.
pub open spec fn trace_registers(code: Seq<nat>, input: Seq<nat>, bits: u64, n: nat) -> Seq<
    RegisterView,
> {
    Seq::new(n + 1, |i: int| vm_at(code, input, bits, i as nat).register)
}

/// The row of the instruction table for address `k` of the program.
pub open spec fn static_row(code: Seq<nat>, k: int) -> InstructionMatrixRow {
    InstructionMatrixRow::of_view(
        InstructionRowView {
            instruction_pointer: k as nat,
            current_instruction: cell(code, k),
            next_instruction: cell(code, k + 1),
        },
    )
}

/// The instruction table before sorting: one row per address of the program,
/// then one per cycle.
pub open spec fn unsorted_instructions(code: Seq<nat>, registers: Seq<RegisterView>) -> Seq<
    InstructionMatrixRow,
> {
    Seq::new(code.len(), |k: int| static_row(code, k)) + registers.map_values(
        |r: RegisterView| InstructionMatrixRow::of_view(InstructionMatrixRow::of_register(r)),
    )
}

/// The memory table before sorting: one row per cycle.
pub open spec fn unsorted_memory(registers: Seq<RegisterView>) -> Seq<MemoryMatrixRow> {
    registers.map_values(|r: RegisterView| MemoryMatrixRow::of_view(MemoryMatrixRow::of_register(r)))
}

/// The registers of a processor table, as numbers.
pub open spec fn register_views(rows: Seq<Register>) -> Seq<RegisterView> {
    rows.map_values(|r: Register| r@)
}

/// `matrix` is the trace of the first `n` cycles of `code` on `input`: the
/// processor table holds the registers of cycles `0` to `n`; the memory table
/// holds their memory columns, sorted by memory pointer, and the instruction
/// table the program's rows and their instruction columns, sorted by
/// instruction pointer, both keeping the order of rows with equal keys; the
/// input and output tables hold what was read and written.
pub open spec fn is_trace(matrix: Matrix, code: Seq<nat>, input: Seq<nat>, bits: u64, n: nat) -> bool {
    let registers = register_views(matrix.processor_matrix@);
    &&& registers == trace_registers(code, input, bits, n)
    &&& stably_sorted(unsorted_memory(registers), matrix.memory_matrix@)
    &&& stably_sorted(unsorted_instructions(code, registers), matrix.instruction_matrix@)
    &&& values(matrix.input_matrix@) == vm_at(code, input, bits, n).read
    &&& values(matrix.output_matrix@) == vm_at(code, input, bits, n).written
    &&& values(matrix.program@) == code
}

/// `2^bits - 1` for fewer than 64 bits.
pub fn max_value(bits: u64) -> (r: u64)
    requires
        bits < 64,
    ensures
        r == range_max(bits),
{
    proof {
        vstd::bits::lemma_u64_pow2_no_overflow(bits as nat);
        vstd::bits::lemma_u64_shl_is_mul(1, bits);
        vstd::arithmetic::power2::lemma_pow2_pos(bits as nat);
    }
    (1u64 << bits) - 1
}

/// The machine that runs a compiled program and records its trace.
pub struct Interpreter {
    pub code: Vec<Fr>,
    pub input: Vec<Fr>,
    pub memory: Vec<Fr>,
    pub register: Register,
    pub matrix: Matrix,
    pub bits: u64,
}

impl Interpreter {
    /// The machine as numbers.
    pub open spec fn vm(&self) -> VmState {
        VmState {
            register: self.register@,
            memory: values(self.memory@),
            input: values(self.input@),
            read: values(self.matrix.input_matrix@),
            written: values(self.matrix.output_matrix@),
        }
    }

    /// An interpreter without program or input, for memory values of eight
    /// bits.
    pub fn new() -> (r: Interpreter)
        ensures
            r.code@.len() == 0,
            r.input@.len() == 0,
            r.bits == 8,
            r.vm() == vm_init(Seq::empty(), Seq::empty()),
    {
        let mut memory: Vec<Fr> = Vec::new();
        memory.push(Fr::zero());
        let r = Interpreter {
            code: Vec::new(),
            input: Vec::new(),
            memory,
            register: Register::default(),
            matrix: Matrix::default(),
            bits: 8,
        };
        assert(r.vm().memory =~= seq![0nat]);
        assert(r.vm().input =~= Seq::empty());
        assert(r.vm().read =~= Seq::empty());
        assert(r.vm().written =~= Seq::empty());
        r
    }

    /// Sets the program to run.
    pub fn set_code(&mut self, code: Vec<Fr>)
        ensures
            final(self).code == code,
            final(self).input == old(self).input,
            final(self).memory == old(self).memory,
            final(self).register == old(self).register,
            final(self).matrix == old(self).matrix,
            final(self).bits == old(self).bits,
    {
        self.code = code;
    }

    /// Sets the input that `,` reads from.
    pub fn set_input(&mut self, input: Vec<Fr>)
        ensures
            final(self).input == input,
            final(self).code == old(self).code,
            final(self).memory == old(self).memory,
            final(self).register == old(self).register,
            final(self).matrix == old(self).matrix,
            final(self).bits == old(self).bits,
    {
        self.input = input;
    }

    /// Sets the width of a memory value in bits.
    pub fn set_bits(&mut self, bits: u64)
        ensures
            final(self).bits == bits,
            final(self).code == old(self).code,
            final(self).input == old(self).input,
            final(self).memory == old(self).memory,
            final(self).register == old(self).register,
            final(self).matrix == old(self).matrix,
    {
        self.bits = bits
    }

    /// Whether the machine can take a step, and if not, why.
    pub fn status(&self) -> (s: Status)
        ensures
            s == vm_status(values(self.code@), self.vm()),
    {
        let len = Fr::from_u64(self.code.len() as u64);
        if !self.register.instruction_pointer.lt(&len) {
            return Status::Halted;
        }
        let at_end = !self.register.instruction_pointer.add(&Fr::one()).lt(&len);
        proof {
            lemma_small_mod(self.register.instruction_pointer@ + 1, fr_modulus());
        }
        match self.register.current_instruction.to_u64() {
            None => Status::IllegalInstruction,
            Some(ci) => {
                if ci == SHL as u64 {
                    if self.register.memory_pointer.is_zero() {
                        Status::MemoryUnderflow
                    } else {
                        Status::Running
                    }
                } else if ci == GETCHAR as u64 {
                    if self.input.len() == 0 {
                        Status::NeedsInput
                    } else {
                        Status::Running
                    }
                } else if ci == LB as u64 || ci == RB as u64 {
                    if at_end {
                        Status::MissingOperand
                    } else {
                        Status::Running
                    }
                } else if ci == SHR as u64 || ci == ADD as u64 || ci == SUB as u64 || ci
                    == PUTCHAR as u64 {
                    Status::Running
                } else {
                    Status::IllegalInstruction
                }
            },
        }
    }

    /// The cell of the program at a field element, zero outside the program.
    fn cell_at(&self, at: &Fr) -> (r: Fr)
        ensures
            r@ == cell(values(self.code@), at@ as int),
    {
        let len = Fr::from_u64(self.code.len() as u64);
        if at.lt(&len) {
            proof {
                lemma_small_mod(at@, limb());
            }
            self.code[at.get_lower_128() as usize]
        } else {
            Fr::zero()
        }
    }

    /// Executes one cycle.
    pub fn step(&mut self)
        requires
            vm_status(values(old(self).code@), old(self).vm()) == Status::Running,
            vm_consistent(old(self).vm()),
            old(self).bits < 64,
            old(self).register@.cycle < u64::MAX,
        ensures
            final(self).vm() == vm_step(values(old(self).code@), old(self).bits, old(self).vm()),
            vm_consistent(final(self).vm()),
            final(self).code == old(self).code,
            final(self).bits == old(self).bits,
            final(self).matrix.processor_matrix == old(self).matrix.processor_matrix,
            final(self).matrix.instruction_matrix == old(self).matrix.instruction_matrix,
            final(self).matrix.memory_matrix == old(self).matrix.memory_matrix,
            final(self).matrix.program == old(self).matrix.program,
    {
        let ghost code = values(self.code@);
        let ghost before = self.vm();
        let one = Fr::one();
        let two = Fr::from_u64(2);
        let ip = self.register.instruction_pointer;
        let mp_fr = self.register.memory_pointer;
        let cells = self.memory.len();
        let len = self.code.len();
        assert(before.memory.len() == cells && code.len() == len);
        let mp: usize = self.register.mp();
        let here = self.memory[mp];
        let ci = self.register.current_instruction.get_lower_128();
        proof {
            lemma_small_mod(ip@ + 1, fr_modulus());
            lemma_small_mod(ip@ + 2, fr_modulus());
            lemma_small_mod(mp_fr@ + 1, fr_modulus());
            lemma_small_mod(self.register.cycle@ + 1, fr_modulus());
            lemma_small_mod(self.register.current_instruction@, limb());
            if mp_fr@ > 0 {
                lemma_small_mod((mp_fr@ - 1) as nat, fr_modulus());
            }
        }
        let mut next_ip = ip.add(&one);
        let mut next_mp = mp_fr;
        if ci == SHL as u128 {
            next_mp = mp_fr.sub(&one);
        } else if ci == SHR as u128 {
            next_mp = mp_fr.add(&one);
            if mp + 1 == self.memory.len() {
                self.memory.push(Fr::zero());
                assert(values(self.memory@) =~= before.memory.push(0));
            }
        } else if ci == ADD as u128 {
            let top = Fr::from_u64(max_value(self.bits));
            let v = if here == top {
                Fr::zero()
            } else {
                proof {
                    if here@ == top@ {
                        here.lemma_view_injective(top);
                    }
                }
                here.add(&one)
            };
            self.memory.set(mp, v);
            assert(values(self.memory@) =~= before.memory.update(mp as int, v@));
        } else if ci == SUB as u128 {
            let v = if here.is_zero() {
                Fr::from_u64(max_value(self.bits))
            } else {
                here.sub(&one)
            };
            self.memory.set(mp, v);
            assert(values(self.memory@) =~= before.memory.update(mp as int, v@));
        } else if ci == GETCHAR as u128 {
            let v = self.input.remove(0);
            self.memory.set(mp, v);
            self.matrix.input_matrix.push(v);
            assert(values(self.memory@) =~= before.memory.update(mp as int, v@));
            assert(values(self.input@) =~= before.input.remove(0));
            assert(values(self.matrix.input_matrix@) =~= before.read.push(v@));
        } else if ci == PUTCHAR as u128 {
            self.matrix.output_matrix.push(self.register.memory_value);
            assert(values(self.matrix.output_matrix@) =~= before.written.push(
                before.register.memory_value,
            ));
        } else if ci == LB as u128 {
            if here.is_zero() {
                next_ip = self.cell_at(&next_ip);
            } else {
                next_ip = ip.add(&two);
            }
        } else {
            if !here.is_zero() {
                next_ip = self.cell_at(&next_ip);
            } else {
                next_ip = ip.add(&two);
            }
        }
        let after = next_ip.add(&one);
        let next_ci = self.cell_at(&next_ip);
        let next_ni = if next_ip.lt(&Fr::from_u64(self.code.len() as u64)) {
            proof {
                lemma_small_mod(next_ip@ + 1, fr_modulus());
            }
            self.cell_at(&after)
        } else {
            Fr::zero()
        };
        proof {
            lemma_small_mod(next_mp@, limb());
        }
        let mv = self.memory[next_mp.get_lower_128() as usize];
        self.register = Register {
            cycle: self.register.cycle.add(&one),
            instruction_pointer: next_ip,
            current_instruction: next_ci,
            next_instruction: next_ni,
            memory_pointer: next_mp,
            memory_value: mv,
            memory_value_inverse: mv.inverse_or_zero(),
        };
        proof {
            let after = self.vm();
            let want = vm_step(code, old(self).bits, before);
            assert(after.memory =~= want.memory);
            assert(after.input =~= want.input);
            assert(after.read =~= want.read);
            assert(after.written =~= want.written);
            assert(after.register.instruction_pointer == want.register.instruction_pointer);
            assert(after.register.memory_pointer == want.register.memory_pointer);
            assert(after.register.current_instruction == want.register.current_instruction);
            assert(after.register.next_instruction == want.register.next_instruction);
            assert(after.register.memory_value == want.register.memory_value);
            assert(after.register == want.register);
        }
    }

    /// Runs the program from the start for at most `max_cycles` cycles and
    /// records the trace of the cycles it ran.
    ///
    /// The machine stops at the first state that cannot take a step, or after
    /// `max_cycles` steps. The status returned is the status of the state it
    /// stopped in: `Running` where only the limit stopped it.
    pub fn run(&mut self, max_cycles: u64) -> (status: Status)
        requires
            old(self).code@.len() > 0,
            old(self).bits < 64,
        ensures
            final(self).code == old(self).code,
            final(self).bits == old(self).bits,
            final(self).register@.cycle <= max_cycles,
            final(self).vm() == vm_at(
                values(old(self).code@),
                values(old(self).input@),
                old(self).bits,
                final(self).register@.cycle,
            ),
            runs_for(
                values(old(self).code@),
                values(old(self).input@),
                old(self).bits,
                final(self).register@.cycle,
            ),
            status == vm_status(values(old(self).code@), final(self).vm()),
            status == Status::Running ==> final(self).register@.cycle == max_cycles,
            is_trace(
                final(self).matrix,
                values(old(self).code@),
                values(old(self).input@),
                old(self).bits,
                final(self).register@.cycle,
            ),
    {
        let ghost code = values(self.code@);
        let ghost input = values(self.input@);
        let ghost bits = self.bits;
        let len = self.code.len();
        self.memory = Vec::new();
        self.memory.push(Fr::zero());
        self.matrix = Matrix::default();
        self.matrix.program = self.code.clone();
        self.register = Register::default();
        self.register.current_instruction = self.code[0];
        self.register.next_instruction = if len == 1 {
            Fr::zero()
        } else {
            self.code[1]
        };
        assert(values(self.matrix.program@) =~= code);
        assert(self.vm().memory =~= seq![0nat]);
        assert(self.vm().read =~= Seq::empty());
        assert(self.vm().written =~= Seq::empty());
        let mut k: usize = 0;
        while k < len
            invariant
                k <= len,
                len == self.code@.len(),
                code == values(self.code@),
                self.matrix.instruction_matrix@ =~= Seq::new(k as nat, |j: int| static_row(code, j)),
                self.vm() == vm_init(code, input),
                self.code == old(self).code,
                self.matrix.processor_matrix@.len() == 0,
                self.matrix.memory_matrix@.len() == 0,
                values(self.matrix.program@) == code,
                self.bits == bits,
            decreases len - k,
        {
            let row = InstructionMatrixRow {
                instruction_pointer: Fr::from_u64(k as u64),
                current_instruction: self.code[k],
                next_instruction: if k == len - 1 {
                    Fr::zero()
                } else {
                    self.code[k + 1]
                },
            };
            proof {
                row.lemma_of_view();
            }
            self.matrix.instruction_matrix.push(row);
            k = k + 1;
        }
        let ghost statics = self.matrix.instruction_matrix@;
        let mut cycles: u64 = 0;
        let mut status = self.status();
        while status == Status::Running && cycles < max_cycles
            invariant
                cycles <= max_cycles,
                code == values(self.code@),
                self.code == old(self).code,
                self.bits == bits,
                bits < 64,
                self.register@.cycle == cycles,
                self.vm() == vm_at(code, input, bits, cycles as nat),
                vm_consistent(self.vm()),
                runs_for(code, input, bits, cycles as nat),
                status == vm_status(code, self.vm()),
                statics == Seq::new(code.len(), |j: int| static_row(code, j)),
                register_views(self.matrix.processor_matrix@) =~= Seq::new(
                    cycles as nat,
                    |i: int| vm_at(code, input, bits, i as nat).register,
                ),
                self.matrix.memory_matrix@ =~= unsorted_memory(
                    register_views(self.matrix.processor_matrix@),
                ),
                self.matrix.instruction_matrix@ =~= statics + register_views(
                    self.matrix.processor_matrix@,
                ).map_values(
                    |r: RegisterView|
                        InstructionMatrixRow::of_view(InstructionMatrixRow::of_register(r)),
                ),
                values(self.matrix.program@) == code,
            decreases max_cycles - cycles,
        {
            let ghost rows = self.matrix.processor_matrix@;
            self.record();
            assert(register_views(self.matrix.processor_matrix@) =~= register_views(rows).push(
                self.register@,
            ));
            self.step();
            cycles = cycles + 1;
            status = self.status();
        }
        let ghost rows = self.matrix.processor_matrix@;
        self.record();
        assert(register_views(self.matrix.processor_matrix@) =~= register_views(rows).push(
            self.register@,
        ));
        proof {
            let registers = register_views(self.matrix.processor_matrix@);
            assert(self.matrix.memory_matrix@ =~= unsorted_memory(registers));
            assert(self.matrix.instruction_matrix@ =~= unsorted_instructions(code, registers));
        }
        stable_sort_by_key(&mut self.matrix.instruction_matrix);
        stable_sort_by_key(&mut self.matrix.memory_matrix);
        proof {
            let registers = register_views(self.matrix.processor_matrix@);
            assert(registers =~= trace_registers(code, input, bits, cycles as nat));
            assert(stably_sorted(unsorted_memory(registers), self.matrix.memory_matrix@));
            assert(stably_sorted(
                unsorted_instructions(code, registers),
                self.matrix.instruction_matrix@,
            ));
        }
        status
    }

    /// Appends the current registers to the three tables that hold one row
    /// per cycle.
    fn record(&mut self)
        ensures
            final(self).matrix.processor_matrix@ == old(self).matrix.processor_matrix@.push(
                old(self).register,
            ),
            final(self).matrix.memory_matrix@ == old(self).matrix.memory_matrix@.push(
                MemoryMatrixRow::of_view(MemoryMatrixRow::of_register(old(self).register@)),
            ),
            final(self).matrix.instruction_matrix@ == old(self).matrix.instruction_matrix@.push(
                InstructionMatrixRow::of_view(InstructionMatrixRow::of_register(old(self).register@)),
            ),
            final(self).matrix.input_matrix == old(self).matrix.input_matrix,
            final(self).matrix.output_matrix == old(self).matrix.output_matrix,
            final(self).matrix.program == old(self).matrix.program,
            final(self).code == old(self).code,
            final(self).input == old(self).input,
            final(self).memory == old(self).memory,
            final(self).register == old(self).register,
            final(self).bits == old(self).bits,
    {
        self.matrix.processor_matrix.push(self.register);
        self.matrix.instruction_matrix.push(InstructionMatrixRow::from_register(&self.register));
        self.matrix.memory_matrix.push(MemoryMatrixRow::from_register(&self.register));
    }
}

} // verus!
