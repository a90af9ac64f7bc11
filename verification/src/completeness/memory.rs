//! The memory table of a trace satisfies the memory table's gates.

use crate::bn256::fr::fr_modulus;
use crate::bn256::fr::fr_mul;
use crate::bn256::fr::fr_sub;
use crate::completeness::field::lemma_mul_zero;
use crate::completeness::field::lemma_sub_add;
use crate::completeness::history::lemma_cycle;
use crate::completeness::history::lemma_first_visit;
use crate::completeness::history::lemma_revisit;
use crate::completeness::history::lemma_visited;
use crate::completeness::history::memory_at;
use crate::completeness::history::pointer_at;
use crate::interpreter::is_trace;
use crate::interpreter::register_views;
use crate::interpreter::runs_for;
use crate::interpreter::unsorted_memory;
use crate::interpreter::vm_at;
use crate::linkage::lemma_register_cells;
use crate::linkage::memory_prp;
use crate::linkage::prp_step;
use crate::matrix::Matrix;
use crate::matrix::MemoryMatrixRow;
use crate::plonk::witness::rotated;
use crate::plonk::witness::Witness;
use crate::sort::reorders;
use crate::sort::SortKey;
use crate::tables::memory_table::MemoryTableConfig;
use crate::tables::memory_table::PrpArg;
use crate::utils::adv;
use crate::utils::sel;
use vstd::arithmetic::div_mod::lemma_small_mod;
use vstd::prelude::*;
use vstd::seq_lib::to_multiset_contains;

verus! {

/// The cycle that each row of the memory table comes from.
pub open spec fn sources(matrix: &Matrix) -> Seq<int> {
    choose|from: Seq<int>| #[trigger]
        reorders(
            unsorted_memory(register_views(matrix.processor_matrix@)),
            matrix.memory_matrix@,
            from,
        )
}

/// Some row of the memory table comes from cycle `s`.
pub open spec fn has_row(matrix: &Matrix, n: nat, s: int) -> bool {
    exists|r: int| 0 <= r <= n && #[trigger] sources(matrix)[r] == s
}

/// Every row of the memory table holds the cycle it comes from and what
/// that cycle saw at the memory pointer, and every cycle has its row.
pub proof fn lemma_memory_rows(matrix: &Matrix, code: Seq<nat>, input: Seq<nat>, bits: u64, n: nat)
    requires
        is_trace(*matrix, code, input, bits, n),
    ensures
        matrix.memory_matrix@.len() == n + 1,
        sources(matrix).len() == n + 1,
        reorders(
            unsorted_memory(register_views(matrix.processor_matrix@)),
            matrix.memory_matrix@,
            sources(matrix),
        ),
        forall|p: int|
            0 <= p <= n ==> 0 <= #[trigger] sources(matrix)[p] <= n && matrix.memory_matrix@[p].cycle@
                == sources(matrix)[p] && matrix.memory_matrix@[p].memory_pointer@ == pointer_at(
                code,
                input,
                bits,
                sources(matrix)[p] as nat,
            ) && matrix.memory_matrix@[p].memory_value@ == vm_at(
                code,
                input,
                bits,
                sources(matrix)[p] as nat,
            ).register.memory_value,
        forall|s: int| 0 <= s <= n ==> #[trigger] has_row(matrix, n, s),
{
    let registers = register_views(matrix.processor_matrix@);
    let unsorted = unsorted_memory(registers);
    let rows = matrix.memory_matrix@;
    let from = sources(matrix);
    assert(registers.len() == n + 1);
    assert(unsorted.len() == n + 1);
    assert forall|t: int| 0 <= t <= n implies (#[trigger] unsorted[t]).cycle@ == t
        && unsorted[t].memory_pointer@ == pointer_at(code, input, bits, t as nat)
        && unsorted[t].memory_value@ == vm_at(code, input, bits, t as nat).register.memory_value by {
        let r = matrix.processor_matrix@[t];
        assert(registers[t] == r@);
        assert(registers[t] == vm_at(code, input, bits, t as nat).register);
        r.cycle.lemma_from_nat_of_view();
        r.memory_pointer.lemma_from_nat_of_view();
        r.memory_value.lemma_from_nat_of_view();
        lemma_register_cells(code, input, bits, t as nat);
    }
    assert forall|p: int| 0 <= p <= n implies 0 <= #[trigger] from[p] <= n && rows[p].cycle@
        == from[p] && rows[p].memory_pointer@ == pointer_at(code, input, bits, from[p] as nat)
        && rows[p].memory_value@ == vm_at(code, input, bits, from[p] as nat).register.memory_value by {
        assert(rows[p] == unsorted[from[p]]);
    }
    assert forall|s: int| 0 <= s <= n implies #[trigger] has_row(matrix, n, s) by {
        assert(unsorted.contains(unsorted[s]));
        to_multiset_contains(unsorted, unsorted[s]);
        to_multiset_contains(rows, unsorted[s]);
        let r = choose|r: int| 0 <= r < rows.len() && rows[r] == unsorted[s];
        assert(rows[r] == unsorted[from[r]]);
        assert(from[r] == s);
    }
}

/// Two neighbouring rows of the memory table: the second has the same
/// memory pointer or the next; where it has the next, its memory value is
/// zero; where it has the same and another memory value, it is one cycle
/// later.
pub proof fn lemma_memory_neighbours(
    matrix: &Matrix,
    code: Seq<nat>,
    input: Seq<nat>,
    bits: u64,
    n: nat,
    row: int,
)
    requires
        is_trace(*matrix, code, input, bits, n),
        runs_for(code, input, bits, n),
        0 <= row < n,
    ensures
        ({
            let x = matrix.memory_matrix@[row];
            let y = matrix.memory_matrix@[row + 1];
            &&& x.cycle@ <= n
            &&& y.cycle@ <= n
            &&& y.memory_pointer@ == x.memory_pointer@ || y.memory_pointer@ == x.memory_pointer@ + 1
            &&& y.memory_pointer@ == x.memory_pointer@ + 1 ==> y.memory_value@ == 0
            &&& y.memory_pointer@ == x.memory_pointer@ && y.memory_value@ != x.memory_value@
                ==> y.cycle@ == x.cycle@ + 1
        }),
{
    let rows = matrix.memory_matrix@;
    let from = sources(matrix);
    lemma_memory_rows(matrix, code, input, bits, n);
    let a = from[row] as nat;
    let b = from[row + 1] as nat;
    let ka = pointer_at(code, input, bits, a);
    let kb = pointer_at(code, input, bits, b);
    assert(rows[row].key() <= rows[row + 1].key());
    assert(ka <= kb);
    assert(from[row] != from[row + 1]);
    assert(runs_for(code, input, bits, a));
    assert(runs_for(code, input, bits, b));
    if kb > ka + 1 {
        // the cell between the two was visited, and its row would lie between
        let k = ka + 1;
        if b > 0 {
            lemma_cycle(code, input, bits, (b - 1) as nat);
        }
        assert(kb < memory_at(code, input, bits, b).len()) by {
            crate::linkage::lemma_vm_consistent(code, input, bits, b);
        }
        lemma_visited(code, input, bits, k as nat, b);
        let s = choose|s: nat| s <= b && #[trigger] pointer_at(code, input, bits, s) == k;
        assert(has_row(matrix, n, s as int));
        let r = choose|r: int| 0 <= r <= n && #[trigger] from[r] == s as int;
        assert(rows[r].key() == k);
        if r < row {
            assert(rows[r].key() <= rows[row].key());
        }
        if r > row + 1 {
            assert(rows[row + 1].key() <= rows[r].key());
        }
    }
    if kb == ka + 1 {
        // no earlier cycle was at the second row's cell
        assert forall|s: nat| s < b implies #[trigger] pointer_at(code, input, bits, s) != kb by {
            if pointer_at(code, input, bits, s) == kb {
                assert(has_row(matrix, n, s as int));
                let r = choose|r: int| 0 <= r <= n && #[trigger] from[r] == s as int;
                assert(rows[r].key() == kb);
                if r <= row {
                    if r < row {
                        assert(rows[r].key() <= rows[row].key());
                    }
                } else {
                    assert(r != row + 1);
                    assert(rows[row + 1].key() == rows[r].key());
                    assert(from[row + 1] < from[r]);
                }
            }
        }
        lemma_first_visit(code, input, bits, b);
    }
    if kb == ka {
        assert(rows[row].key() == rows[row + 1].key());
        assert(from[row] < from[row + 1]);
        assert forall|t: nat| a < t < b implies #[trigger] pointer_at(code, input, bits, t)
            != ka by {
            if pointer_at(code, input, bits, t) == ka {
                assert(has_row(matrix, n, t as int));
                let r = choose|r: int| 0 <= r <= n && #[trigger] from[r] == t as int;
                assert(rows[r].key() == ka);
                if r < row {
                    assert(rows[r].key() == rows[row].key());
                    assert(from[r] < from[row]);
                }
                if r > row + 1 {
                    assert(rows[row + 1].key() == rows[r].key());
                    assert(from[row + 1] < from[r]);
                }
            }
        }
        lemma_revisit(code, input, bits, a, b);
    }
}

/// What the proofs on the memory table assume: `w` shows the trace of an
/// execution of `n` cycles, loaded into a blank assignment with rows to
/// spare.
#[verifier::opaque]
pub open spec fn memory_setting(
    config: MemoryTableConfig,
    w: &Witness,
    before: &Witness,
    matrix: &Matrix,
    prp_arg: PrpArg,
    code: Seq<nat>,
    input: Seq<nat>,
    bits: u64,
    n: nat,
) -> bool {
    &&& config.well_formed()
    &&& before.blank()
    &&& w.rows == before.rows
    &&& w.challenges == before.challenges
    &&& config.shows(w, before, matrix, prp_arg)
    &&& is_trace(*matrix, code, input, bits, n)
    &&& runs_for(code, input, bits, n)
    &&& n + 1 < w.rows
    &&& n <= u64::MAX
}

/// What the three memory columns and the running product hold on two
/// neighbouring rows where the transition selector is on.
pub open spec fn rows_match(
    config: MemoryTableConfig,
    env: crate::plonk::expression::Env,
    x: MemoryMatrixRow,
    y: MemoryMatrixRow,
) -> bool {
    &&& adv(env, config.clk, 0) == x.cycle@
    &&& adv(env, config.mp, 0) == x.memory_pointer@
    &&& adv(env, config.mv, 0) == x.memory_value@
    &&& adv(env, config.clk, 1) == y.cycle@
    &&& adv(env, config.mp, 1) == y.memory_pointer@
    &&& adv(env, config.mv, 1) == y.memory_value@
}

/// The three transition gates vanish where the transition selector is off
/// or the two rows are neighbours of a memory table.
pub proof fn lemma_memory_row(
    config: MemoryTableConfig,
    env: crate::plonk::expression::Env,
    x: MemoryMatrixRow,
    y: MemoryMatrixRow,
)
    requires
        sel(env, config.s_m) == 0 || ({
            &&& rows_match(config, env, x, y)
            &&& x.cycle@ <= u64::MAX
            &&& y.memory_pointer@ == x.memory_pointer@ || y.memory_pointer@ == x.memory_pointer@ + 1
            &&& y.memory_pointer@ == x.memory_pointer@ + 1 ==> y.memory_value@ == 0
            &&& y.memory_pointer@ == x.memory_pointer@ && y.memory_value@ != x.memory_value@
                ==> y.cycle@ == x.cycle@ + 1
        }),
    ensures
        config.m0(env) == 0,
        config.m1(env) == 0,
        config.m2(env) == 0,
{
    let s = sel(env, config.s_m);
    let d = config.mp_step(env);
    let dv = fr_sub(adv(env, config.mv, 0), adv(env, config.mv, 1));
    let dc = fr_sub(fr_sub(adv(env, config.clk, 1), adv(env, config.clk, 0)), 1);
    lemma_mul_zero(s);
    lemma_mul_zero(d);
    lemma_mul_zero(fr_sub(d, 1));
    lemma_mul_zero(dv);
    lemma_mul_zero(dc);
    lemma_mul_zero(adv(env, config.mv, 1));
    lemma_mul_zero(fr_mul(s, fr_sub(d, 1)));
    lemma_mul_zero(fr_mul(s, d));
    lemma_mul_zero(fr_mul(fr_mul(s, fr_sub(d, 1)), dv));
    if s != 0 {
        lemma_small_mod(1, fr_modulus());
        lemma_sub_add(y.cycle@, x.cycle@, 1);
        if y.memory_pointer@ == x.memory_pointer@ {
            assert(d == 0);
            if y.memory_value@ != x.memory_value@ {
                assert(dc == 0);
            } else {
                assert(dv == 0);
            }
        } else {
            assert(d == 1);
            assert(fr_sub(d, 1) == 0);
        }
    }
}

/// Every gate of the memory table vanishes on every row.
pub proof fn lemma_memory_complete(
    config: MemoryTableConfig,
    w: &Witness,
    before: &Witness,
    matrix: &Matrix,
    prp_arg: PrpArg,
    code: Seq<nat>,
    input: Seq<nat>,
    bits: u64,
    n: nat,
    row: int,
)
    requires
        memory_setting(config, w, before, matrix, prp_arg, code, input, bits, n),
        0 <= row < w.rows,
    ensures
        forall|k: int| 0 <= k < 3 ==> #[trigger] config.gate(k, w.env(row)) == 0,
        config.prp_gate(w.env(row), prp_arg) == 0,
{
    reveal(memory_setting);
    let env = w.env(row);
    let rows = matrix.memory_matrix@;
    lemma_memory_rows(matrix, code, input, bits, n);
    assert(config.owns(config.clk.index as int));
    assert(config.owns(config.mp.index as int));
    assert(config.owns(config.mv.index as int));
    assert(config.owns(config.prp.index as int));
    assert(config.owns_selector(config.s_m.0 as int));
    assert(config.owns_selector(config.s_prp.0 as int));
    lemma_small_mod(row as nat, w.rows as nat);
    assert(rotated(row, 0, w.rows as int) == row);
    let taken = fr_sub(
        adv(env, config.prp, 1),
        prp_step(
            prp_arg.values_in(env),
            adv(env, config.prp, 0),
            adv(env, config.clk, 0),
            adv(env, config.mp, 0),
            adv(env, config.mv, 0),
        ),
    );
    lemma_mul_zero(taken);
    lemma_mul_zero(1);
    if row <= n {
        lemma_small_mod((row + 1) as nat, w.rows as nat);
        assert(rotated(row, 1, w.rows as int) == row + 1);
        assert(rows.take(row + 1).drop_last() =~= rows.take(row));
        assert(adv(env, config.prp, 0) == memory_prp(rows.take(row), prp_arg.init@, prp_arg.values(before)));
        assert(adv(env, config.prp, 1) == memory_prp(
            rows.take(row + 1),
            prp_arg.init@,
            prp_arg.values(before),
        ));
        assert(prp_arg.values_in(env) == prp_arg.values(before));
        assert(taken == 0);
    }
    if row < n {
        lemma_memory_neighbours(matrix, code, input, bits, n, row);
        lemma_memory_row(config, env, rows[row], rows[row + 1]);
    } else {
        assert(sel(env, config.s_m) == 0);
        lemma_memory_row(config, env, rows[0], rows[0]);
    }
}

} // verus!
