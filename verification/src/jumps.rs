//! Where the jumps of a compiled program lead.
//!
//! The compiler writes into the operand of each bracket the address of an
//! instruction, or the end of the program. A machine that runs a compiled
//! program therefore only ever stands on an instruction: it finds no
//! bracket without operand and no cell that is no instruction, and it halts
//! exactly at the end of the program.

use crate::code::balanced;
use crate::code::compile_prefix;
use crate::code::compiled;
use crate::code::depth;
use crate::code::is_opcode;
use crate::code::lemma_compile_prefix_shape;
use crate::code::ADD;
use crate::code::GETCHAR;
use crate::code::LB;
use crate::code::PUTCHAR;
use crate::code::RB;
use crate::code::SHL;
use crate::code::SHR;
use crate::code::SUB;
use crate::interpreter::runs_for;
use crate::interpreter::vm_at;
use crate::interpreter::vm_status;
use crate::interpreter::Status;
use crate::linkage::lemma_register_cells;
use vstd::prelude::*;

verus! {

/// For each cell that the compiler emits for the first `n` bytes, whether
/// the cell holds an instruction; the others hold operands.
pub open spec fn marks_prefix(code: Seq<u8>, n: nat) -> Seq<bool>
    decreases n,
{
    if n == 0 {
        Seq::empty()
    } else {
        let before = marks_prefix(code, (n - 1) as nat);
        let b = code[n - 1];
        if !is_opcode(b) {
            before
        } else if b == LB || (b == RB && compile_prefix(code, (n - 1) as nat).open.len() > 0) {
            before.push(true).push(false)
        } else {
            before.push(true)
        }
    }
}

/// For each cell of the compiled program of `code`, whether it holds an
/// instruction.
pub open spec fn marks(code: Seq<u8>) -> Seq<bool> {
    marks_prefix(code, code.len())
}

/// Cell `a` holds an instruction.
pub open spec fn starts(marks: Seq<bool>, a: int) -> bool {
    0 <= a < marks.len() && marks[a]
}

/// Address `a` is that of an instruction, or the end of the program.
pub open spec fn on_instruction(marks: Seq<bool>, a: int) -> bool {
    0 <= a <= marks.len() && (a == marks.len() || marks[a])
}

/// The cell holds one of the two brackets.
pub open spec fn is_bracket(c: nat) -> bool {
    c == LB as nat || c == RB as nat
}

/// The cell holds one of the six instructions without operand.
pub open spec fn is_plain(c: nat) -> bool {
    c == SHL as nat || c == SHR as nat || c == ADD as nat || c == SUB as nat || c == GETCHAR as nat
        || c == PUTCHAR as nat
}

/// The program begins with an instruction, a bracket is followed by its
/// operand, and after each instruction and its operand comes an instruction
/// or the end of the program.
pub open spec fn shaped(cells: Seq<nat>, marks: Seq<bool>) -> bool {
    &&& marks.len() == cells.len()
    &&& on_instruction(marks, 0)
    &&& forall|a: int| #[trigger]
        starts(marks, a) ==> if is_bracket(cells[a]) {
            a + 1 < cells.len() && !marks[a + 1] && on_instruction(marks, a + 2)
        } else {
            is_plain(cells[a]) && on_instruction(marks, a + 1)
        }
}

/// The operand of every bracket, but of those whose operand is among `open`,
/// is the address of an instruction or the end of the program.
pub open spec fn resolved(cells: Seq<nat>, marks: Seq<bool>, open: Seq<nat>) -> bool {
    forall|a: int| #[trigger]
        starts(marks, a) && is_bracket(cells[a]) && !open.contains((a + 1) as nat)
            ==> on_instruction(marks, cells[a + 1] as int)
}

/// Every address in `open` is that of the operand of a `[`, and the
/// addresses grow.
pub open spec fn pending(cells: Seq<nat>, marks: Seq<bool>, open: Seq<nat>) -> bool {
    &&& forall|j: int|
        0 <= j < open.len() ==> {
            let o = #[trigger] open[j];
            &&& 1 <= o < cells.len()
            &&& starts(marks, o - 1)
            &&& cells[o - 1] == LB as nat
        }
    &&& forall|i: int, j: int| 0 <= i < j < open.len() ==> open[i] < open[j]
}

/// A program in which every jump leads to an instruction or to the end of
/// the program; `marks` tells its instructions from its operands.
pub open spec fn closed(cells: Seq<nat>, marks: Seq<bool>) -> bool {
    shaped(cells, marks) && resolved(cells, marks, Seq::empty())
}

/// While compiling, the cells emitted so far are shaped, the brackets still
/// open are those awaiting their target, and every other bracket has it.
proof fn lemma_prefix_closed(code: Seq<u8>, n: nat)
    requires
        n <= code.len(),
        forall|k: nat| k <= n ==> depth(code, k) >= 0,
    ensures
        shaped(compile_prefix(code, n).cells, marks_prefix(code, n)),
        pending(compile_prefix(code, n).cells, marks_prefix(code, n), compile_prefix(code, n).open),
        resolved(compile_prefix(code, n).cells, marks_prefix(code, n), compile_prefix(code, n).open),
    decreases n,
{
    let s = compile_prefix(code, n);
    let m = marks_prefix(code, n);
    if n == 0 {
        assert(s.open.len() == 0);
    } else {
        let t = compile_prefix(code, (n - 1) as nat);
        let tm = marks_prefix(code, (n - 1) as nat);
        let b = code[n - 1];
        let len = t.cells.len() as int;
        lemma_prefix_closed(code, (n - 1) as nat);
        lemma_compile_prefix_shape(code, (n - 1) as nat);
        assert(depth(code, n) >= 0);
        if !is_opcode(b) {
        } else if b == LB {
            assert forall|a: int| #[trigger] starts(m, a) implies if is_bracket(s.cells[a]) {
                a + 1 < s.cells.len() && !m[a + 1] && on_instruction(m, a + 2)
            } else {
                is_plain(s.cells[a]) && on_instruction(m, a + 1)
            } by {
                if a < len {
                    assert(starts(tm, a));
                }
            }
            assert forall|j: int| 0 <= j < s.open.len() implies {
                let o = #[trigger] s.open[j];
                &&& 1 <= o < s.cells.len()
                &&& starts(m, o - 1)
                &&& s.cells[o - 1] == LB as nat
            } by {
                if j < t.open.len() {
                    let o = t.open[j];
                    assert(starts(tm, o - 1));
                }
            }
            assert forall|a: int| #[trigger]
                starts(m, a) && is_bracket(s.cells[a]) && !s.open.contains(
                    (a + 1) as nat,
                ) implies on_instruction(m, s.cells[a + 1] as int) by {
                if a < len {
                    assert(starts(tm, a));
                    if t.open.contains((a + 1) as nat) {
                        let j = choose|j: int| 0 <= j < t.open.len() && t.open[j] == (a + 1) as nat;
                        assert(s.open[j] == (a + 1) as nat);
                    }
                } else {
                    assert(s.open[t.open.len() as int] == (len + 1) as nat);
                }
            }
        } else if b == RB {
            assert(t.open.len() > 0);
            let o = t.open.last() as int;
            assert(t.open[t.open.len() - 1] == o);
            assert(starts(tm, o - 1));
            assert(o != len && o != len + 1);
            assert forall|a: int| #[trigger] starts(m, a) implies if is_bracket(s.cells[a]) {
                a + 1 < s.cells.len() && !m[a + 1] && on_instruction(m, a + 2)
            } else {
                is_plain(s.cells[a]) && on_instruction(m, a + 1)
            } by {
                if a < len {
                    assert(starts(tm, a));
                    assert(a != o);
                }
            }
            assert forall|j: int| 0 <= j < s.open.len() implies {
                let p = #[trigger] s.open[j];
                &&& 1 <= p < s.cells.len()
                &&& starts(m, p - 1)
                &&& s.cells[p - 1] == LB as nat
            } by {
                let p = t.open[j];
                assert(starts(tm, p - 1));
                assert(p - 1 != o);
            }
            assert forall|a: int| #[trigger]
                starts(m, a) && is_bracket(s.cells[a]) && !s.open.contains(
                    (a + 1) as nat,
                ) implies on_instruction(m, s.cells[a + 1] as int) by {
                if a == len {
                    assert(s.cells[a + 1] == o + 1);
                } else if a + 1 == o {
                    assert(s.cells[a + 1] == len + 2);
                } else {
                    assert(starts(tm, a));
                    assert(a != o);
                    if t.open.contains((a + 1) as nat) {
                        let j = choose|j: int| 0 <= j < t.open.len() && t.open[j] == (a + 1) as nat;
                        assert(j < t.open.len() - 1);
                        assert(s.open[j] == (a + 1) as nat);
                    }
                    assert(s.cells[a + 1] == t.cells[a + 1]);
                }
            }
        } else {
            assert forall|a: int| #[trigger] starts(m, a) implies if is_bracket(s.cells[a]) {
                a + 1 < s.cells.len() && !m[a + 1] && on_instruction(m, a + 2)
            } else {
                is_plain(s.cells[a]) && on_instruction(m, a + 1)
            } by {
                if a < len {
                    assert(starts(tm, a));
                }
            }
            assert forall|j: int| 0 <= j < s.open.len() implies {
                let o = #[trigger] s.open[j];
                &&& 1 <= o < s.cells.len()
                &&& starts(m, o - 1)
                &&& s.cells[o - 1] == LB as nat
            } by {
                let o = t.open[j];
                assert(starts(tm, o - 1));
            }
            assert forall|a: int| #[trigger]
                starts(m, a) && is_bracket(s.cells[a]) && !s.open.contains(
                    (a + 1) as nat,
                ) implies on_instruction(m, s.cells[a + 1] as int) by {
                assert(starts(tm, a));
            }
        }
    }
}

/// The compiled program of balanced code is closed.
pub proof fn lemma_compiled_closed(code: Seq<u8>)
    requires
        balanced(code),
    ensures
        closed(compiled(code), marks(code)),
{
    lemma_prefix_closed(code, code.len());
    lemma_compile_prefix_shape(code, code.len());
    assert(compile_prefix(code, code.len()).open =~= Seq::<nat>::empty());
}

/// A machine that runs a closed program stands on an instruction or at the
/// end of the program after every cycle.
pub proof fn lemma_stays_on_instructions(
    code: Seq<nat>,
    marks: Seq<bool>,
    input: Seq<nat>,
    bits: u64,
    n: nat,
)
    requires
        closed(code, marks),
        runs_for(code, input, bits, n),
    ensures
        on_instruction(marks, vm_at(code, input, bits, n).register.instruction_pointer as int),
    decreases n,
{
    if n > 0 {
        let k = (n - 1) as nat;
        assert(runs_for(code, input, bits, k));
        lemma_stays_on_instructions(code, marks, input, bits, k);
        lemma_register_cells(code, input, bits, k);
        let s = vm_at(code, input, bits, k);
        let ip = s.register.instruction_pointer as int;
        assert(vm_status(code, s) == Status::Running);
        assert(starts(marks, ip));
        if is_bracket(code[ip]) {
            assert(!Seq::<nat>::empty().contains((ip + 1) as nat));
        }
    }
}

/// A machine that runs a closed program never finds a bracket without
/// operand or a cell that is no instruction, and it halts only at the end
/// of the program.
pub proof fn lemma_halts_at_end(code: Seq<nat>, marks: Seq<bool>, input: Seq<nat>, bits: u64, n: nat)
    requires
        closed(code, marks),
        runs_for(code, input, bits, n),
    ensures
        vm_status(code, vm_at(code, input, bits, n)) != Status::MissingOperand,
        vm_status(code, vm_at(code, input, bits, n)) != Status::IllegalInstruction,
        vm_status(code, vm_at(code, input, bits, n)) == Status::Halted ==> vm_at(
            code,
            input,
            bits,
            n,
        ).register.instruction_pointer == code.len(),
{
    lemma_stays_on_instructions(code, marks, input, bits, n);
    lemma_register_cells(code, input, bits, n);
    let ip = vm_at(code, input, bits, n).register.instruction_pointer as int;
    if ip < code.len() {
        assert(starts(marks, ip));
    }
}

} // verus!
