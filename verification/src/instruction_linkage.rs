//! Why the instruction table's accumulators agree with those of the
//! processor table and of the program.
//!
//! The sorted instruction table falls into one group of rows per address:
//! the program's row for the address, then one row per cycle that executed
//! it, all of them equal; the last group is the row of the halted machine.
//! The running product skips the last row of each group but the last, that
//! is one row per address of the program, and so takes one factor per
//! cycle. The running sum takes exactly the rows that the product skips,
//! that is the program.

use crate::code::values;
use crate::interpreter::cell;
use crate::interpreter::is_trace;
use crate::interpreter::register_views;
use crate::interpreter::runs_for;
use crate::interpreter::static_row;
use crate::interpreter::unsorted_instructions;
use crate::interpreter::vm_at;
use crate::interpreter::vm_status;
use crate::interpreter::RegisterView;
use crate::interpreter::Status;
use crate::linkage::instruction_prp;
use crate::linkage::instruction_rs;
use crate::linkage::lemma_fold_left_pointwise;
use crate::linkage::lemma_fr_mul_swap;
use crate::linkage::lemma_register_cells;
use crate::linkage::lemma_running_sum_push;
use crate::linkage::next_pointer;
use crate::linkage::processor_inst_prp;
use crate::linkage::prp_factor;
use crate::linkage::prp_step;
use crate::linkage::register_inst_fn;
use crate::linkage::running_sum;
use crate::linkage::PrpChallenges;
use crate::matrix::InstructionMatrixRow;
use crate::matrix::Matrix;
use crate::sort::SortKey;
use crate::u256::limb;
use vstd::prelude::*;
use vstd::seq_lib::commutative_foldl;
use vstd::seq_lib::lemma_fold_left_permutation;
use vstd::seq_lib::lemma_multiset_commutative;
use vstd::seq_lib::to_multiset_build;
use vstd::seq_lib::to_multiset_contains;

verus! {

/// The step of the instruction table's running product on one of its rows.
pub open spec fn instruction_fn(ch: PrpChallenges) -> spec_fn(nat, InstructionMatrixRow) -> nat {
    |acc: nat, r: InstructionMatrixRow|
        prp_step(ch, acc, r.instruction_pointer@, r.current_instruction@, r.next_instruction@)
}

/// The rows among the first `m` that the running product takes: those
/// followed by a row with the same instruction pointer, and the last.
pub open spec fn taken_rows(rows: Seq<InstructionMatrixRow>, m: nat) -> Seq<InstructionMatrixRow>
    decreases m,
{
    if m == 0 {
        Seq::empty()
    } else {
        let before = taken_rows(rows, (m - 1) as nat);
        if next_pointer(rows, m - 1) == rows[m - 1].instruction_pointer@ {
            before.push(rows[m - 1])
        } else {
            before
        }
    }
}

/// The rows among the first `m` that the running product skips.
pub open spec fn skipped_rows(rows: Seq<InstructionMatrixRow>, m: nat) -> Seq<InstructionMatrixRow>
    decreases m,
{
    if m == 0 {
        Seq::empty()
    } else {
        let before = skipped_rows(rows, (m - 1) as nat);
        if next_pointer(rows, m - 1) == rows[m - 1].instruction_pointer@ {
            before
        } else {
            before.push(rows[m - 1])
        }
    }
}

/// The program's rows for the addresses below `count`.
pub open spec fn static_rows(code: Seq<nat>, count: nat) -> Seq<InstructionMatrixRow> {
    Seq::new(count, |k: int| static_row(code, k))
}

/// The rows of the cycles, as the instruction table holds them.
pub open spec fn dynamic_rows(registers: Seq<RegisterView>) -> Seq<InstructionMatrixRow> {
    registers.map_values(
        |r: RegisterView| InstructionMatrixRow::of_view(InstructionMatrixRow::of_register(r)),
    )
}

/// What the proofs below need of a sorted instruction table: it is sorted,
/// every row is the program's row for its address, every address of the
/// program occurs, and so does the address the machine halted at, which is
/// the only one outside the program.
pub open spec fn grouped(rows: Seq<InstructionMatrixRow>, code: Seq<nat>, halt: nat) -> bool {
    &&& code.len() > 0
    &&& halt >= code.len()
    &&& rows.len() > 0
    &&& forall|i: int, j: int|
        0 <= i < j < rows.len() ==> (#[trigger] rows[i]).instruction_pointer@ <= (
        #[trigger] rows[j]).instruction_pointer@
    &&& forall|k: int|
        0 <= k < rows.len() ==> (#[trigger] rows[k]) == static_row(
            code,
            rows[k].instruction_pointer@ as int,
        ) && (rows[k].instruction_pointer@ < code.len() || rows[k].instruction_pointer@ == halt)
    &&& forall|a: nat| a < code.len() ==> #[trigger] occurs(rows, a)
    &&& occurs(rows, halt)
}

/// Some row has the address `a`.
pub open spec fn occurs(rows: Seq<InstructionMatrixRow>, a: nat) -> bool {
    exists|k: int| 0 <= k < rows.len() && (#[trigger] rows[k]).instruction_pointer@ == a
}

/// How many addresses of the program lie before the address of row `m`.
pub open spec fn addresses_before(rows: Seq<InstructionMatrixRow>, code: Seq<nat>, m: int) -> nat {
    if rows[m].instruction_pointer@ < code.len() {
        rows[m].instruction_pointer@
    } else {
        code.len()
    }
}

/// In a grouped table the first row has address zero and the last row the
/// address the machine halted at.
pub proof fn lemma_ends(rows: Seq<InstructionMatrixRow>, code: Seq<nat>, halt: nat)
    requires
        grouped(rows, code, halt),
    ensures
        rows[0].instruction_pointer@ == 0,
        rows[rows.len() - 1].instruction_pointer@ == halt,
{
    assert(occurs(rows, 0));
    let k0 = choose|k: int| 0 <= k < rows.len() && (#[trigger] rows[k]).instruction_pointer@ == 0;
    if k0 > 0 {
        assert(rows[0].instruction_pointer@ <= rows[k0].instruction_pointer@);
    }
    let kh = choose|k: int|
        0 <= k < rows.len() && (#[trigger] rows[k]).instruction_pointer@ == halt;
    let last = rows.len() - 1;
    if kh < last {
        assert(rows[kh].instruction_pointer@ <= rows[last].instruction_pointer@);
    }
    assert(rows[last] == static_row(code, rows[last].instruction_pointer@ as int));
}

/// Where the address changes from one row to the next in a grouped table,
/// it changes from an address of the program to the address after it, or
/// from the last address of the program to the address the machine halted
/// at.
pub proof fn lemma_change(rows: Seq<InstructionMatrixRow>, code: Seq<nat>, halt: nat, j: int)
    requires
        grouped(rows, code, halt),
        0 <= j < rows.len() - 1,
        rows[j].instruction_pointer@ != rows[j + 1].instruction_pointer@,
    ensures
        rows[j].instruction_pointer@ < code.len(),
        addresses_before(rows, code, j + 1) == rows[j].instruction_pointer@ + 1,
{
    let a = rows[j].instruction_pointer@;
    let b = rows[j + 1].instruction_pointer@;
    assert(a <= b);
    assert(rows[j] == static_row(code, a as int));
    assert(rows[j + 1] == static_row(code, b as int));
    if a + 1 < code.len() {
        assert(occurs(rows, a + 1));
        let k = choose|k: int|
            0 <= k < rows.len() && (#[trigger] rows[k]).instruction_pointer@ == a + 1;
        if k < j {
            assert(rows[k].instruction_pointer@ <= rows[j].instruction_pointer@);
        }
        if k > j + 1 {
            assert(rows[j + 1].instruction_pointer@ <= rows[k].instruction_pointer@);
        }
    }
}

/// The rows that the running product skips among the first `m` rows of a
/// grouped table are the program's rows for the addresses before that of
/// row `m`.
proof fn lemma_skipped(rows: Seq<InstructionMatrixRow>, code: Seq<nat>, halt: nat, m: nat)
    requires
        grouped(rows, code, halt),
        m < rows.len(),
    ensures
        skipped_rows(rows, m) == static_rows(code, addresses_before(rows, code, m as int)),
    decreases m,
{
    if m == 0 {
        lemma_ends(rows, code, halt);
        assert(skipped_rows(rows, 0) =~= static_rows(code, 0));
    } else {
        let j = (m - 1) as nat;
        lemma_skipped(rows, code, halt, j);
        let before = addresses_before(rows, code, j as int);
        if rows[j as int].instruction_pointer@ != rows[m as int].instruction_pointer@ {
            lemma_change(rows, code, halt, j as int);
            assert(rows[j as int] == static_row(code, before as int));
            assert(static_rows(code, before).push(static_row(code, before as int))
                =~= static_rows(code, before + 1));
        }
    }
}

/// The rows that the running product skips in a whole grouped table are
/// the program's rows.
proof fn lemma_skipped_all(rows: Seq<InstructionMatrixRow>, code: Seq<nat>, halt: nat)
    requires
        grouped(rows, code, halt),
    ensures
        skipped_rows(rows, rows.len()) == static_rows(code, code.len()),
{
    let last = (rows.len() - 1) as nat;
    lemma_skipped(rows, code, halt, last);
    lemma_ends(rows, code, halt);
}

/// The running product over the first `m` rows is the fold over the rows
/// it takes.
proof fn lemma_prp_is_fold(
    rows: Seq<InstructionMatrixRow>,
    init: nat,
    ch: PrpChallenges,
    m: nat,
)
    ensures
        instruction_prp(rows, init, ch, m) == taken_rows(rows, m).fold_left(
            init,
            instruction_fn(ch),
        ),
    decreases m,
{
    if m > 0 {
        lemma_prp_is_fold(rows, init, ch, (m - 1) as nat);
        let before = taken_rows(rows, (m - 1) as nat);
        assert(before.push(rows[m - 1]).drop_last() =~= before);
    }
}

/// Every one of the first `m` rows is taken or skipped.
proof fn lemma_taken_or_skipped(rows: Seq<InstructionMatrixRow>, m: nat)
    requires
        m <= rows.len(),
    ensures
        rows.take(m as int).to_multiset() == taken_rows(rows, m).to_multiset().add(
            skipped_rows(rows, m).to_multiset(),
        ),
    decreases m,
{
    broadcast use vstd::multiset::group_multiset_axioms;
    broadcast use vstd::seq_lib::group_to_multiset_ensures;

    if m == 0 {
        assert(rows.take(0) =~= Seq::<InstructionMatrixRow>::empty());
        assert(rows.take(0).to_multiset() =~= taken_rows(rows, 0).to_multiset().add(
            skipped_rows(rows, 0).to_multiset(),
        ));
    } else {
        let j = (m - 1) as nat;
        lemma_taken_or_skipped(rows, j);
        assert(rows.take(m as int) =~= rows.take(j as int).push(rows[j as int]));
        to_multiset_build(rows.take(j as int), rows[j as int]);
        to_multiset_build(taken_rows(rows, j), rows[j as int]);
        to_multiset_build(skipped_rows(rows, j), rows[j as int]);
        assert(rows.take(m as int).to_multiset() =~= taken_rows(rows, m).to_multiset().add(
            skipped_rows(rows, m).to_multiset(),
        ));
    }
}

/// The code running sum over the first `m` rows of a grouped table is the
/// running sum of the program up to the address of row `m`.
proof fn lemma_rs_prefix(
    rows: Seq<InstructionMatrixRow>,
    code: Seq<nat>,
    halt: nat,
    gamma: nat,
    m: nat,
)
    requires
        grouped(rows, code, halt),
        m < rows.len(),
        forall|k: int| 0 <= k < code.len() ==> #[trigger] code[k] < limb() * limb(),
    ensures
        instruction_rs(rows, gamma, m) == running_sum(
            code.take(addresses_before(rows, code, m as int) as int),
            gamma,
        ),
    decreases m,
{
    if m == 0 {
        lemma_ends(rows, code, halt);
        assert(code.take(0).len() == 0);
    } else {
        let j = (m - 1) as nat;
        lemma_rs_prefix(rows, code, halt, gamma, j);
        let before = addresses_before(rows, code, j as int);
        if rows[j as int].instruction_pointer@ != rows[m as int].instruction_pointer@ {
            lemma_change(rows, code, halt, j as int);
            assert(rows[j as int] == static_row(code, before as int));
            crate::bn256::fr::Fr::lemma_from_nat_view(cell(code, before as int));
            assert(rows[j as int].current_instruction@ == code[before as int]);
            assert(code.take(before + 1 as int) =~= code.take(before as int).push(code[before as int]));
            lemma_running_sum_push(code.take(before as int), gamma, code[before as int]);
        }
    }
}

/// The instruction table of the trace of an execution that halted is
/// grouped.
pub proof fn lemma_trace_grouped(
    matrix: Matrix,
    code: Seq<nat>,
    input: Seq<nat>,
    bits: u64,
    n: nat,
)
    requires
        is_trace(matrix, code, input, bits, n),
        runs_for(code, input, bits, n),
        vm_status(code, vm_at(code, input, bits, n)) == Status::Halted,
        code.len() > 0,
    ensures
        grouped(
            matrix.instruction_matrix@,
            code,
            vm_at(code, input, bits, n).register.instruction_pointer,
        ),
        forall|k: int| 0 <= k < code.len() ==> #[trigger] code[k] < limb() * limb(),
{
    broadcast use vstd::multiset::group_multiset_axioms;

    let rows = matrix.instruction_matrix@;
    let registers = register_views(matrix.processor_matrix@);
    let unsorted = unsorted_instructions(code, registers);
    let halt = vm_at(code, input, bits, n).register.instruction_pointer;
    let statics = static_rows(code, code.len());
    let dynamics = dynamic_rows(registers);
    assert(unsorted == statics + dynamics);
    vstd::std_specs::vec::axiom_spec_len(&matrix.program);
    assert(code.len() == matrix.program@.len());
    assert forall|k: int| 0 <= k < code.len() implies #[trigger] code[k] < limb() * limb() by {
        let x = matrix.program@[k];
        assert(code[k] == x@);
        x.lemma_from_nat_of_view();
        lemma_view_below(x@);
    }
    // every row before sorting is the program's row for its address
    assert forall|u: int| 0 <= u < unsorted.len() implies (#[trigger] unsorted[u]) == static_row(
        code,
        unsorted[u].instruction_pointer@ as int,
    ) && (unsorted[u].instruction_pointer@ < code.len() || unsorted[u].instruction_pointer@
        == halt) by {
        if u < code.len() {
            crate::bn256::fr::Fr::lemma_from_nat_view(u as nat);
        } else {
            let i = u - code.len();
            let r = matrix.processor_matrix@[i];
            assert(registers[i] == r@);
            assert(unsorted[u] == dynamics[i]);
            r.instruction_pointer.lemma_from_nat_of_view();
            lemma_register_cells(code, input, bits, i as nat);
            assert(registers[i] == vm_at(code, input, bits, i as nat).register);
            if i < n {
                assert(vm_status(code, vm_at(code, input, bits, i as nat)) == Status::Running);
            }
        }
    }
    assert forall|k: int| 0 <= k < rows.len() implies (#[trigger] rows[k]) == static_row(
        code,
        rows[k].instruction_pointer@ as int,
    ) && (rows[k].instruction_pointer@ < code.len() || rows[k].instruction_pointer@ == halt) by {
        assert(rows.contains(rows[k]));
        to_multiset_contains(rows, rows[k]);
        to_multiset_contains(unsorted, rows[k]);
        let u = choose|u: int| 0 <= u < unsorted.len() && unsorted[u] == rows[k];
        assert(unsorted[u] == static_row(code, unsorted[u].instruction_pointer@ as int));
    }
    assert forall|a: nat| a < code.len() implies #[trigger] occurs(rows, a) by {
        crate::bn256::fr::Fr::lemma_from_nat_view(a);
        assert(unsorted[a as int] == static_row(code, a as int));
        assert(unsorted.contains(unsorted[a as int]));
        to_multiset_contains(unsorted, unsorted[a as int]);
        to_multiset_contains(rows, unsorted[a as int]);
        let k = choose|k: int| 0 <= k < rows.len() && rows[k] == unsorted[a as int];
        assert(rows[k].instruction_pointer@ == a);
    }
    assert(occurs(rows, halt)) by {
        let u = (code.len() + n) as int;
        let r = matrix.processor_matrix@[n as int];
        assert(registers[n as int] == r@);
        assert(unsorted[u] == dynamics[n as int]);
        r.instruction_pointer.lemma_from_nat_of_view();
        assert(unsorted.contains(unsorted[u]));
        to_multiset_contains(unsorted, unsorted[u]);
        to_multiset_contains(rows, unsorted[u]);
        let k = choose|k: int| 0 <= k < rows.len() && rows[k] == unsorted[u];
        assert(rows[k].instruction_pointer@ == halt);
    }
    assert forall|i: int, j: int| 0 <= i < j < rows.len() implies (
    #[trigger] rows[i]).instruction_pointer@ <= (#[trigger] rows[j]).instruction_pointer@ by {
        assert(rows[i].key() <= rows[j].key());
    }
}

/// The residue of an element is below 2^256.
proof fn lemma_view_below(x: nat)
    requires
        exists|e: crate::bn256::fr::Fr| e@ == x,
    ensures
        x < limb() * limb(),
{
    let e = choose|e: crate::bn256::fr::Fr| e@ == x;
    e.lemma_view_bounded();
}

/// For the trace of an execution that halted, the instruction table's
/// running product is the processor table's instruction running product,
/// whatever the seed and the challenges.
pub proof fn lemma_inst_prp_matches(
    matrix: Matrix,
    code: Seq<nat>,
    input: Seq<nat>,
    bits: u64,
    n: nat,
    init: nat,
    ch: PrpChallenges,
)
    requires
        is_trace(matrix, code, input, bits, n),
        runs_for(code, input, bits, n),
        vm_status(code, vm_at(code, input, bits, n)) == Status::Halted,
        code.len() > 0,
    ensures
        instruction_prp(
            matrix.instruction_matrix@,
            init,
            ch,
            matrix.instruction_matrix@.len(),
        ) == processor_inst_prp(register_views(matrix.processor_matrix@), init, ch),
{
    broadcast use vstd::multiset::group_multiset_axioms;

    let rows = matrix.instruction_matrix@;
    let registers = register_views(matrix.processor_matrix@);
    let halt = vm_at(code, input, bits, n).register.instruction_pointer;
    let statics = static_rows(code, code.len());
    let dynamics = dynamic_rows(registers);
    let taken = taken_rows(rows, rows.len());
    let f = instruction_fn(ch);
    lemma_trace_grouped(matrix, code, input, bits, n);
    lemma_skipped_all(rows, code, halt);
    lemma_taken_or_skipped(rows, rows.len());
    assert(rows.take(rows.len() as int) =~= rows);
    lemma_multiset_commutative(statics, dynamics);
    assert(unsorted_instructions(code, registers) == statics + dynamics);
    // the rows taken are the rows of the cycles, in another order
    assert(taken.to_multiset() =~= dynamics.to_multiset()) by {
        assert forall|x: InstructionMatrixRow| taken.to_multiset().count(x)
            == dynamics.to_multiset().count(x) by {
            assert(rows.to_multiset().count(x) == taken.to_multiset().count(x)
                + statics.to_multiset().count(x));
            assert(rows.to_multiset().count(x) == statics.to_multiset().count(x)
                + dynamics.to_multiset().count(x));
        }
    }
    assert(commutative_foldl(f)) by {
        assert forall|x: InstructionMatrixRow, y: InstructionMatrixRow, v: nat| #[trigger]
            f(f(v, x), y) == f(f(v, y), x) by {
            lemma_fr_mul_swap(
                v,
                prp_factor(ch, x.instruction_pointer@, x.current_instruction@, x.next_instruction@),
                prp_factor(ch, y.instruction_pointer@, y.current_instruction@, y.next_instruction@),
            );
        }
    }
    lemma_prp_is_fold(rows, init, ch, rows.len());
    lemma_fold_left_permutation(taken, dynamics, f, init);
    assert forall|acc: nat, i: int| 0 <= i < dynamics.len() implies #[trigger] f(acc, dynamics[i])
        == register_inst_fn(ch)(acc, registers[i]) by {
        let r = matrix.processor_matrix@[i];
        assert(registers[i] == r@);
        r.instruction_pointer.lemma_from_nat_of_view();
        r.current_instruction.lemma_from_nat_of_view();
        r.next_instruction.lemma_from_nat_of_view();
    }
    lemma_fold_left_pointwise(dynamics, registers, f, register_inst_fn(ch), init);
}

/// For the trace of an execution that halted, the instruction table's code
/// running sum is the running sum of the program, whatever the challenge.
pub proof fn lemma_code_rs_matches(
    matrix: Matrix,
    code: Seq<nat>,
    input: Seq<nat>,
    bits: u64,
    n: nat,
    gamma: nat,
)
    requires
        is_trace(matrix, code, input, bits, n),
        runs_for(code, input, bits, n),
        vm_status(code, vm_at(code, input, bits, n)) == Status::Halted,
        code.len() > 0,
    ensures
        instruction_rs(matrix.instruction_matrix@, gamma, matrix.instruction_matrix@.len())
            == running_sum(values(matrix.program@), gamma),
{
    let rows = matrix.instruction_matrix@;
    let halt = vm_at(code, input, bits, n).register.instruction_pointer;
    lemma_trace_grouped(matrix, code, input, bits, n);
    let last = (rows.len() - 1) as nat;
    lemma_rs_prefix(rows, code, halt, gamma, last);
    lemma_ends(rows, code, halt);
    assert(code.take(code.len() as int) =~= code);
}

} // verus!
