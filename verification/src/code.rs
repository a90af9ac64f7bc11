//! The instruction compiler: program bytes to a flat list of field
//! elements, with the jump target of each bracket stored in the cell after
//! it.

use crate::bn256::fr::Fr;
use vstd::prelude::*;
use vstd::string::StringSliceAdditionalSpecFns;

verus! {

pub const SHL: u8 = 0x3C;

pub const SHR: u8 = 0x3E;

pub const ADD: u8 = 0x2B;

pub const SUB: u8 = 0x2D;

pub const GETCHAR: u8 = 0x2C;

pub const PUTCHAR: u8 = 0x2E;

pub const LB: u8 = 0x5B;

pub const RB: u8 = 0x5D;

/// The eight bytes that are instructions; every other byte is a comment.
pub open spec fn is_opcode(b: u8) -> bool {
    b == SHL || b == SHR || b == ADD || b == SUB || b == GETCHAR || b == PUTCHAR || b == LB
        || b == RB
}

/// Open brackets minus closing brackets among the first `n` bytes.
pub open spec fn depth(code: Seq<u8>, n: nat) -> int
    decreases n,
{
    if n == 0 {
        0
    } else {
        let b = code[n - 1];
        depth(code, (n - 1) as nat) + if b == LB {
            1int
        } else if b == RB {
            -1int
        } else {
            0int
        }
    }
}

/// No bracket closes before it was opened, and none stays open.
pub open spec fn balanced(code: Seq<u8>) -> bool {
    &&& forall|n: nat| n <= code.len() ==> depth(code, n) >= 0
    &&& depth(code, code.len()) == 0
}

/// What the compiler holds after some bytes: the cells emitted and, for each
/// bracket still open, the address of its operand cell.
pub struct CompileState {
    pub cells: Seq<nat>,
    pub open: Seq<nat>,
}

/// The compiler's state after one more byte.
///
/// A plain instruction emits its byte. `[` emits its byte and an empty
/// operand, and remembers the operand's address. `]` emits its byte and the
/// address after the operand of the bracket it closes, and writes the address
/// after its own operand into that bracket's operand.
pub open spec fn compile_byte(s: CompileState, b: u8) -> CompileState {
    if !is_opcode(b) {
        s
    } else if b == LB {
        CompileState {
            cells: s.cells.push(b as nat).push(0),
            open: s.open.push(s.cells.len() + 1),
        }
    } else if b == RB && s.open.len() > 0 {
        let target = s.open.last();
        CompileState {
            cells: s.cells.push(b as nat).push(target + 1).update(
                target as int,
                s.cells.len() + 2,
            ),
            open: s.open.drop_last(),
        }
    } else {
        CompileState { cells: s.cells.push(b as nat), open: s.open }
    }
}

/// The compiler's state after the first `n` bytes.
pub open spec fn compile_prefix(code: Seq<u8>, n: nat) -> CompileState
    decreases n,
{
    if n == 0 {
        CompileState { cells: Seq::empty(), open: Seq::empty() }
    } else {
        compile_byte(compile_prefix(code, (n - 1) as nat), code[n - 1])
    }
}

/// The compiled program of `code`, as numbers.
pub open spec fn compiled(code: Seq<u8>) -> Seq<nat> {
    compile_prefix(code, code.len()).cells
}

/// The numbers that a list of field elements stands for.
pub open spec fn values(v: Seq<Fr>) -> Seq<nat> {
    v.map_values(|x: Fr| x@)
}

/// While compiling, a bracket is open for each unit of depth, every open
/// operand lies inside the cells, and at most two cells come from one byte.
pub proof fn lemma_compile_prefix_shape(code: Seq<u8>, n: nat)
    requires
        n <= code.len(),
        forall|k: nat| k <= n ==> depth(code, k) >= 0,
    ensures
        compile_prefix(code, n).open.len() == depth(code, n),
        compile_prefix(code, n).cells.len() <= 2 * n,
        forall|j: int|
            0 <= j < compile_prefix(code, n).open.len() ==> #[trigger] compile_prefix(
                code,
                n,
            ).open[j] < compile_prefix(code, n).cells.len(),
    decreases n,
{
    if n > 0 {
        lemma_compile_prefix_shape(code, (n - 1) as nat);
        assert(depth(code, n) >= 0);
    }
}

/// Whether the brackets of `code` are balanced.
pub fn is_balanced(code: &Vec<u8>) -> (r: bool)
    ensures
        r == balanced(code@),
{
    let mut open: usize = 0;
    let mut i: usize = 0;
    while i < code.len()
        invariant
            i <= code.len(),
            open == depth(code@, i as nat),
            open <= i,
            forall|n: nat| n <= i ==> depth(code@, n) >= 0,
        decreases code.len() - i,
    {
        let b = code[i];
        if b == LB {
            open = open + 1;
        } else if b == RB {
            if open == 0 {
                assert(depth(code@, (i + 1) as nat) < 0);
                return false;
            }
            open = open - 1;
        }
        i = i + 1;
        assert forall|n: nat| n <= i implies depth(code@, n) >= 0 by {
            if n == i {
            }
        }
    }
    open == 0
}

/// Each byte of `code` as a field element, comments and all.
pub fn easygen(code: &str) -> (r: Vec<Fr>)
    ensures
        r@.len() == code.spec_bytes().len(),
        forall|i: int| 0 <= i < r@.len() ==> (#[trigger] r@[i])@ == code.spec_bytes()[i],
{
    let bytes = code.as_bytes();
    let mut out: Vec<Fr> = Vec::new();
    let mut i: usize = 0;
    while i < bytes.len()
        invariant
            i <= bytes.len(),
            bytes@ == code.spec_bytes(),
            out@.len() == i,
            forall|j: int| 0 <= j < i ==> (#[trigger] out@[j])@ == bytes@[j],
        decreases bytes.len() - i,
    {
        out.push(Fr::from_u64(bytes[i] as u64));
        i = i + 1;
    }
    out
}

/// Compiles a program: keeps the eight instruction bytes, and gives each
/// bracket the address to jump to.
pub fn compile(code: Vec<u8>) -> (r: Vec<Fr>)
    requires
        balanced(code@),
    ensures
        values(r@) == compiled(code@),
{
    let mut instrs: Vec<Fr> = Vec::new();
    let mut jstack: Vec<usize> = Vec::new();
    let mut i: usize = 0;
    while i < code.len()
        invariant
            i <= code.len(),
            balanced(code@),
            values(instrs@) =~= compile_prefix(code@, i as nat).cells,
            instrs@.len() == compile_prefix(code@, i as nat).cells.len(),
            jstack@.len() == compile_prefix(code@, i as nat).open.len(),
            forall|j: int|
                0 <= j < jstack@.len() ==> #[trigger] jstack@[j] == compile_prefix(
                    code@,
                    i as nat,
                ).open[j],
        decreases code.len() - i,
    {
        let b = code[i];
        let ghost before = compile_prefix(code@, i as nat);
        proof {
            lemma_compile_prefix_shape(code@, i as nat);
            lemma_compile_prefix_shape(code@, (i + 1) as nat);
        }
        if b == SHL || b == SHR || b == ADD || b == SUB || b == GETCHAR || b == PUTCHAR || b == LB
            || b == RB {
            instrs.push(Fr::from_u64(b as u64));
            if b == LB {
                instrs.push(Fr::zero());
                jstack.push(instrs.len() - 1);
            }
            if b == RB {
                assert(depth(code@, (i + 1) as nat) >= 0);
                let target = jstack[jstack.len() - 1];
                assert(target == before.open[jstack@.len() - 1]);
                assert(target < before.cells.len());
                let emitted = instrs.len();
                assert(target < emitted);
                let after_open: usize = target + 1;
                instrs.push(Fr::from_u64(after_open as u64));
                let here = Fr::from_u64(instrs.len() as u64);
                instrs.set(target, here);
                jstack.pop();
            }
        }
        i = i + 1;
        assert(values(instrs@) =~= compile_prefix(code@, i as nat).cells);
    }
    instrs
}

} // verus!
