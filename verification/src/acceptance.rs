//! What an assignment that satisfies the circuit shows of the trace loaded
//! into it: the hash of program and input is the public hash, every memory
//! value passed the range check, and the tables agree on their final
//! accumulators.

use crate::bn256::fr::fr_modulus;
use crate::completeness::circuit::is_circuit;
use crate::interpreter::register_views;
use crate::main_config::advice_cell;
use crate::main_config::MainConfig;
use crate::matrix::Matrix;
use crate::plonk::constraint_system::ConstraintSystem;
use crate::plonk::witness::rotated;
use crate::plonk::witness::Witness;
use crate::utils::adv;
use crate::utils::sel;
use vstd::arithmetic::div_mod::lemma_small_mod;
use vstd::prelude::*;

verus! {

/// Where the cells that loading constrains equal hold equal values, the
/// hash cell holds the public hash.
pub proof fn lemma_hash_is_public(config: MainConfig, cs: &ConstraintSystem, w: &Witness, matrix: &Matrix)
    requires
        w.copies@ == config.linked_cells(matrix),
        w.satisfies(cs),
    ensures
        w.advice_at(config.hash.index as int, 0) == w.instance_at(
            config.expected_hash.index as int,
            0,
        ),
{
    let cells = config.linked_cells(matrix);
    assert(w.copies@[0] == cells[0]);
    assert(cells[0].0 == advice_cell(config.hash, 0));
    assert(w.cell_value(w.copies@[0].0) == w.cell_value(w.copies@[0].1));
}

/// Where the cells that loading constrains equal hold equal values, the
/// final accumulators of the tables agree pairwise.
pub proof fn lemma_accumulators_agree(
    config: MainConfig,
    cs: &ConstraintSystem,
    before: &Witness,
    w: &Witness,
    matrix: &Matrix,
)
    requires
        config.accumulators_loaded(before, w, matrix),
        w.copies@ == config.linked_cells(matrix),
        w.satisfies(cs),
    ensures
        config.accumulators_agree(before, matrix),
{
    vstd::std_specs::vec::axiom_spec_len(&matrix.processor_matrix);
    vstd::std_specs::vec::axiom_spec_len(&matrix.memory_matrix);
    vstd::std_specs::vec::axiom_spec_len(&matrix.instruction_matrix);
    vstd::std_specs::vec::axiom_spec_len(&matrix.input_matrix);
    vstd::std_specs::vec::axiom_spec_len(&matrix.output_matrix);
    vstd::std_specs::vec::axiom_spec_len(&matrix.program);
    let cells = config.linked_cells(matrix);
    assert(w.copies@[1] == cells[1]);
    assert(w.copies@[2] == cells[2]);
    assert(w.copies@[3] == cells[3]);
    assert(w.copies@[4] == cells[4]);
    assert(w.copies@[5] == cells[5]);
    assert(w.cell_value(w.copies@[1].0) == w.cell_value(w.copies@[1].1));
    assert(w.cell_value(w.copies@[2].0) == w.cell_value(w.copies@[2].1));
    assert(w.cell_value(w.copies@[3].0) == w.cell_value(w.copies@[3].1));
    assert(w.cell_value(w.copies@[4].0) == w.cell_value(w.copies@[4].1));
    assert(w.cell_value(w.copies@[5].0) == w.cell_value(w.copies@[5].1));
}

/// Where the range check finds the memory value of every row in its table,
/// the memory value of row `j` of the trace, as a residue, is below the
/// range.
pub proof fn lemma_value_in_range(
    config: MainConfig,
    cs: &ConstraintSystem,
    before: &Witness,
    w: &Witness,
    matrix: &Matrix,
    j: int,
)
    requires
        is_circuit(config, cs),
        before.blank(),
        config.fits(before, matrix),
        config.shows(w, before, matrix),
        w.satisfies(cs),
        0 <= j < matrix.processor_matrix@.len(),
    ensures
        matrix.processor_matrix@[j].memory_value@ % fr_modulus()
            < config.p_config.lookup_table.range,
{
    reveal(is_circuit);
    let p = config.p_config;
    let env = w.env(j);
    let column = p.lookup_table.table.inner.index as int;
    let registers = register_views(matrix.processor_matrix@);
    let mv = registers[j].memory_value;
    assert(registers[j] == matrix.processor_matrix@[j]@);
    assert(p.row_fits(
        before.rows as int,
        before.advice@.len() as int,
        before.selectors@.len() as int,
        matrix,
        j,
    ));
    lemma_small_mod(j as nat, w.rows as nat);
    assert(rotated(j, 0, w.rows as int) == j);
    assert(p.owns_selector(p.s_lookup.0 as int));
    assert(sel(env, p.s_lookup) == w.selector_at(p.s_lookup.0 as int, j));
    assert(sel(env, p.s_lookup) == 1);
    assert(p.owns(p.mv.index as int));
    assert(adv(env, p.mv, 0) == w.advice_at(p.mv.index as int, j));
    assert(adv(env, p.mv, 0) == mv);
    assert(1 * mv == mv) by (nonlinear_arith);
    let v = p.lookup_input(env);
    assert(v == mv % fr_modulus());
    assert(cs.lookups@[0].input.value(env) == v);
    assert(w.in_table(cs.lookups@[0].table.inner.index as int, cs.lookups@[0].input.value(env)));
    let r = choose|r: int| 0 <= r < w.rows && #[trigger] w.fixed_at(column, r) == v;
    assert(w.fixed_at(column, r) == p.loaded_fixed(before, column, r));
    assert(before.fixed_at(column, r) == 0);
}

} // verus!
