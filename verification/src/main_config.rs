//! The whole circuit: the six tables, the equalities between their final
//! accumulators, and the public hash of program and input.

use crate::bn256::fr::Fr;
use crate::code::values;
use crate::instruction_linkage::lemma_code_rs_matches;
use crate::instruction_linkage::lemma_inst_prp_matches;
use crate::interpreter::is_trace;
use crate::interpreter::register_views;
use crate::interpreter::runs_for;
use crate::interpreter::vm_at;
use crate::interpreter::vm_status;
use crate::interpreter::Status;
use crate::linkage::lemma_input_rs_matches;
use crate::linkage::lemma_mem_prp_matches;
use crate::linkage::lemma_output_rs_matches;
use crate::linkage::instruction_prp;
use crate::linkage::instruction_rs;
use crate::linkage::memory_prp;
use crate::linkage::processor_input_rs;
use crate::linkage::processor_inst_prp;
use crate::linkage::processor_mem_prp;
use crate::linkage::processor_output_rs;
use crate::linkage::running_sum;
use crate::matrix::Matrix;
use crate::plonk::circuit::Advice;
use crate::plonk::circuit::Any;
use crate::plonk::circuit::Column;
use crate::plonk::circuit::FirstPhase;
use crate::plonk::circuit::Instance;
use crate::plonk::constraint_system::ConstraintSystem;
use crate::plonk::expression::Env;
use crate::plonk::witness::Cell;
use crate::plonk::witness::Error;
use crate::plonk::witness::Witness;
use crate::poseidon_hash::binds;
use crate::poseidon_hash::poseidon_hash;
use crate::tables::input_table::InputTableConfig;
use crate::tables::instruction_table::InstructionTableConfig;
use crate::tables::memory_table::MemoryTableConfig;
use crate::tables::memory_table::PrpArg;
use crate::tables::output_table::OutputTableConfig;
use crate::tables::processor_table::ProcessorTableConfig;
use crate::tables::program_table::ProgramTableConfig;
use crate::tables::running_sum::rs_gate;
use crate::tables::running_sum::rs_loaded_advice;
use crate::tables::running_sum::rs_loaded_selector;
use crate::tables::running_sum::rs_shows;
use crate::utils::BFChallenge;
use vstd::prelude::*;

verus! {

/// The configuration of the whole circuit.
#[derive(Clone, Copy, Debug)]
pub struct MainConfig {
    pub p_config: ProcessorTableConfig,
    pub m_config: MemoryTableConfig,
    pub i_config: InstructionTableConfig,
    pub output_config: OutputTableConfig,
    pub input_config: InputTableConfig,
    pub program_config: ProgramTableConfig,
    /// The public hash of program and input
    pub expected_hash: Column<Instance>,
    /// The hash of program and input as the circuit computes it
    pub hash: Column<Advice>,
    pub challenges: BFChallenge,
}

/// The advice cell of `column` at `row`.
pub open spec fn advice_cell(column: Column<Advice>, row: int) -> Cell {
    Cell {
        column: Column { index: column.index, column_type: Any::Advice(column.column_type) },
        row: row as usize,
    }
}

impl MainConfig {
    /// The seed and challenges of the memory running product.
    pub open spec fn prp_arg(self) -> PrpArg {
        PrpArg {
            init: self.challenges.mem_prp_init,
            challenges: [
                self.challenges.challenges@[0],
                self.challenges.challenges@[1],
                self.challenges.challenges@[2],
                self.challenges.challenges@[3],
            ],
        }
    }

    /// The tables lie side by side as `configure` allocates them, each
    /// table in columns and selectors of its own.
    pub open spec fn well_formed(self) -> bool {
        &&& self.p_config.well_formed()
        &&& self.m_config.well_formed()
        &&& self.i_config.well_formed()
        &&& self.output_config.well_formed()
        &&& self.input_config.well_formed()
        &&& self.program_config.well_formed()
        &&& self.m_config.clk.index == self.p_config.clk.index + 11
        &&& self.i_config.ip.index == self.p_config.clk.index + 15
        &&& self.output_config.val.index == self.p_config.clk.index + 20
        &&& self.input_config.val.index == self.p_config.clk.index + 22
        &&& self.program_config.code.index == self.p_config.clk.index + 26
        &&& self.hash.index == self.p_config.clk.index + 29
        &&& self.m_config.s_m.0 == self.p_config.s_lookup.0 + 6
        &&& self.i_config.s_prp.0 == self.p_config.s_lookup.0 + 8
        &&& self.output_config.s_rs.0 == self.p_config.s_lookup.0 + 12
        &&& self.input_config.s_rs.0 == self.p_config.s_lookup.0 + 13
        &&& self.program_config.s_rs.0 == self.p_config.s_lookup.0 + 14
        &&& self.p_config.lookup_table.range > 0
    }

    /// The value in `env` of the polynomial of the `k`-th of the 27 gates
    /// that `configure` creates: the first-phase gates of the processor,
    /// memory and instruction tables, then the gates of the accumulators of
    /// the memory, processor, instruction, output, input and program
    /// tables.
    pub open spec fn gate(self, k: int, env: Env) -> nat {
        if k < 10 {
            self.p_config.first_phase_gate(k, env)
        } else if k < 13 {
            self.m_config.gate(k - 10, env)
        } else if k < 16 {
            self.i_config.gate(k - 13, env)
        } else if k == 16 {
            self.m_config.prp_gate(env, self.prp_arg())
        } else if k < 21 {
            self.p_config.second_phase_gate(k - 17, env, self.challenges)
        } else if k < 24 {
            self.i_config.second_phase_gate(k - 21, env, self.challenges)
        } else if k == 24 {
            rs_gate(
                env,
                self.output_config.val,
                self.output_config.rs,
                self.output_config.s_rs,
                self.challenges.challenges@[9],
            )
        } else if k == 25 {
            rs_gate(
                env,
                self.input_config.val,
                self.input_config.rs,
                self.input_config.s_rs,
                self.challenges.challenges@[10],
            )
        } else {
            rs_gate(
                env,
                self.program_config.code,
                self.program_config.code_rs,
                self.program_config.s_rs,
                self.challenges.challenges@[8],
            )
        }
    }

    /// Configures the six tables for memory values below `range`, with the
    /// two seeds of the running products.
    pub fn configure(cs: &mut ConstraintSystem, range: usize, mem_prp_init: Fr, inst_prp_init: Fr) -> (r:
        Self)
        requires
            old(cs).well_formed(),
            range > 0,
            old(cs).num_advice_columns <= usize::MAX - 30,
            old(cs).num_fixed_columns < usize::MAX,
            old(cs).num_instance_columns < usize::MAX,
            old(cs).num_selectors <= usize::MAX - 15,
            old(cs).num_challenges <= usize::MAX - 11,
        ensures
            r.well_formed(),
            r.p_config.lookup_table.range == range,
            r.challenges.mem_prp_init == mem_prp_init,
            r.challenges.inst_prp_init == inst_prp_init,
            r.p_config.clk.index == old(cs).num_advice_columns,
            r.p_config.s_lookup.0 == old(cs).num_selectors,
            r.p_config.lookup_table.table.inner.index == old(cs).num_fixed_columns,
            r.expected_hash.index == old(cs).num_instance_columns,
            forall|k: int| 0 <= k < 11 ==> (#[trigger] r.challenges.challenges@[k]).index == old(
                cs,
            ).num_challenges + k,
            final(cs).well_formed(),
            final(cs).num_advice_columns == old(cs).num_advice_columns + 30,
            final(cs).num_fixed_columns == old(cs).num_fixed_columns + 1,
            final(cs).num_instance_columns == old(cs).num_instance_columns + 1,
            final(cs).num_selectors == old(cs).num_selectors + 15,
            final(cs).num_challenges == old(cs).num_challenges + 11,
            final(cs).gates@.len() == old(cs).gates@.len() + 27,
            forall|i: int|
                0 <= i < old(cs).gates@.len() ==> #[trigger] final(cs).gates@[i] == old(
                    cs,
                ).gates@[i],
            forall|k: int|
                0 <= k < 27 ==> (#[trigger] final(cs).gates@[old(cs).gates@.len() + k]).polys@.len()
                    == 1,
            forall|k: int, env: Env|
                0 <= k < 27 ==> #[trigger] final(cs).gates@[old(cs).gates@.len() + k].polys@[0].value(
                    env,
                ) == r.gate(k, env),
            final(cs).lookups@.len() == old(cs).lookups@.len() + 1,
            final(cs).lookups@[old(cs).lookups@.len() as int].table
                == r.p_config.lookup_table.table,
            forall|env: Env| #[trigger]
                final(cs).lookups@[old(cs).lookups@.len() as int].input.value(env)
                    == r.p_config.lookup_input(env),
    {
        let ghost base = cs.gates@.len() as int;
        // Instance Column
        let expected_hash = cs.instance_column();
        cs.enable_equality(expected_hash.to_any());
        // First phase gates and tables
        let p_config = ProcessorTableConfig::configure(cs, range);
        let ghost lookups1 = cs.lookups@;
        let ghost g1 = cs.gates@;
        let m_config = MemoryTableConfig::configure(cs);
        let ghost g2 = cs.gates@;
        let i_config = InstructionTableConfig::configure(cs);
        let ghost g3 = cs.gates@;
        let output_config = OutputTableConfig::configure(cs);
        let input_config = InputTableConfig::configure(cs);
        let program_config = ProgramTableConfig::configure(cs);
        let hash = cs.advice_column_in(FirstPhase);
        cs.enable_equality(hash.to_any());
        assert(cs.advice_column_phase@[hash.index as int].0 == 0);
        // Second phase tables
        let challenges = BFChallenge::init(cs, mem_prp_init, inst_prp_init);
        let prp_arg = PrpArg {
            init: challenges.mem_prp_init,
            challenges: challenges.get_mem_prp_challenges(),
        };
        m_config.configure_prp(cs, prp_arg);
        let ghost g4 = cs.gates@;
        p_config.configure_second_phase(cs, challenges);
        let ghost g5 = cs.gates@;
        i_config.configure_second_phase(cs, challenges);
        let ghost g6 = cs.gates@;
        output_config.configure_second_phase(cs, challenges);
        let ghost g7 = cs.gates@;
        input_config.configure_second_phase(cs, challenges);
        let ghost g8 = cs.gates@;
        program_config.configure_second_phase(cs, challenges);
        let config = Self {
            p_config,
            m_config,
            i_config,
            output_config,
            input_config,
            program_config,
            expected_hash,
            hash,
            challenges,
        };
        proof {
            assert(prp_arg.challenges@ =~= config.prp_arg().challenges@);
            assert(prp_arg.challenges =~= config.prp_arg().challenges);
            assert(prp_arg == config.prp_arg());
            assert(cs.lookups@ == lookups1);
            let g9 = cs.gates@;
            assert forall|k: int| 0 <= k < 27 implies (#[trigger] g9[base + k]) == (if k < 10 {
                g1[base + k]
            } else if k < 13 {
                g2[base + k]
            } else if k < 16 {
                g3[base + k]
            } else if k < 17 {
                g4[base + k]
            } else if k < 21 {
                g5[base + k]
            } else if k < 24 {
                g6[base + k]
            } else if k < 25 {
                g7[base + k]
            } else if k < 26 {
                g8[base + k]
            } else {
                g9[base + k]
            }) by {
                let i = base + k;
                if k < 26 {
                    assert(g9[i] == g8[i]);
                }
                if k < 25 {
                    assert(g8[i] == g7[i]);
                }
                if k < 24 {
                    assert(g7[i] == g6[i]);
                }
                if k < 21 {
                    assert(g6[i] == g5[i]);
                }
                if k < 17 {
                    assert(g5[i] == g4[i]);
                }
                if k < 16 {
                    assert(g4[i] == g3[i]);
                }
                if k < 13 {
                    assert(g3[i] == g2[i]);
                }
                if k < 10 {
                    assert(g2[i] == g1[i]);
                }
            }
            assert forall|k: int| 0 <= k < 27 implies (#[trigger] g9[base + k]).polys@.len()
                == 1 by {
                if 10 <= k < 13 {
                    assert(g2[base + 10 + (k - 10)].polys@.len() == 1);
                } else if 13 <= k < 16 {
                    assert(g3[base + 13 + (k - 13)].polys@.len() == 1);
                } else if 17 <= k < 21 {
                    assert(g5[base + 17 + (k - 17)].polys@.len() == 1);
                } else if 21 <= k < 24 {
                    assert(g6[base + 21 + (k - 21)].polys@.len() == 1);
                }
            }
            assert forall|k: int, env: Env| 0 <= k < 27 implies #[trigger] g9[base
                + k].polys@[0].value(env) == config.gate(k, env) by {
                if k < 10 {
                    assert(g1[base + k].polys@[0].value(env) == p_config.first_phase_gate(k, env));
                } else if k < 13 {
                    assert(g2[base + 10 + (k - 10)].polys@[0].value(env) == m_config.gate(
                        k - 10,
                        env,
                    ));
                } else if k < 16 {
                    assert(g3[base + 13 + (k - 13)].polys@[0].value(env) == i_config.gate(
                        k - 13,
                        env,
                    ));
                } else if k < 17 {
                } else if k < 21 {
                    assert(g5[base + 17 + (k - 17)].polys@[0].value(env)
                        == p_config.second_phase_gate(k - 17, env, challenges));
                } else if k < 24 {
                    assert(g6[base + 21 + (k - 21)].polys@[0].value(env)
                        == i_config.second_phase_gate(k - 21, env, challenges));
                }
            }
        }
        config
    }

    /// The final accumulators of the tables agree pairwise: what the five
    /// equality constraints of the circuit demand of `matrix` and of the
    /// challenges that `witness` holds.
    pub open spec fn accumulators_agree(self, witness: &Witness, matrix: &Matrix) -> bool {
        let registers = register_views(matrix.processor_matrix@);
        let ch = ProcessorTableConfig::challenge_values(witness, self.challenges);
        let code_gamma = witness.challenge_at(self.challenges.challenges@[8].index as int);
        &&& processor_mem_prp(registers, ch.mem_init, ch.mem) == memory_prp(
            matrix.memory_matrix@,
            ch.mem_init,
            ch.mem,
        )
        &&& running_sum(values(matrix.output_matrix@), ch.out_gamma) == processor_output_rs(
            registers,
            ch.out_gamma,
            registers.len(),
        )
        &&& running_sum(values(matrix.input_matrix@), ch.in_gamma) == processor_input_rs(
            registers,
            ch.in_gamma,
            registers.len(),
        )
        &&& processor_inst_prp(registers, ch.inst_init, ch.inst) == instruction_prp(
            matrix.instruction_matrix@,
            ch.inst_init,
            ch.inst,
            matrix.instruction_matrix@.len(),
        )
        &&& running_sum(values(matrix.program@), code_gamma) == instruction_rs(
            matrix.instruction_matrix@,
            code_gamma,
            matrix.instruction_matrix@.len(),
        )
    }

    /// The six pairs of cells that loading constrains equal: the hash with
    /// the public hash, and the five pairs of final accumulators.
    pub open spec fn linked_cells(self, matrix: &Matrix) -> Seq<(Cell, Cell)> {
        let p = matrix.processor_matrix@.len() as int;
        seq![
            (
                advice_cell(self.hash, 0),
                Cell {
                    column: Column { index: self.expected_hash.index, column_type: Any::Instance },
                    row: 0,
                },
            ),
            (
                advice_cell(self.p_config.mem_prp, p),
                advice_cell(self.m_config.prp, matrix.memory_matrix@.len() as int),
            ),
            (
                advice_cell(self.output_config.rs, matrix.output_matrix@.len() as int),
                advice_cell(self.p_config.output_rs, p),
            ),
            (
                advice_cell(self.input_config.rs, matrix.input_matrix@.len() as int),
                advice_cell(self.p_config.input_rs, p),
            ),
            (
                advice_cell(self.p_config.inst_prp, p),
                advice_cell(self.i_config.prp, matrix.instruction_matrix@.len() as int),
            ),
            (
                advice_cell(self.program_config.code_rs, matrix.program@.len() as int),
                advice_cell(self.i_config.rs, matrix.instruction_matrix@.len() as int),
            ),
        ]
    }

    /// Whether `witness` has the challenges, columns, selectors and rows
    /// that loading `matrix` needs.
    pub open spec fn fits(self, witness: &Witness, matrix: &Matrix) -> bool {
        &&& self.p_config.fits(witness, matrix, self.challenges)
        &&& self.m_config.fits(witness, matrix, self.prp_arg())
        &&& self.i_config.fits(witness, matrix, self.challenges)
        &&& self.output_config.fits(witness, matrix, self.challenges)
        &&& self.input_config.fits(witness, matrix, self.challenges)
        &&& self.program_config.fits(witness, matrix, self.challenges)
        &&& self.hash.index < witness.advice@.len()
    }

    /// `w` holds the six tables of `matrix` as loading them into `before`
    /// leaves them, whatever `w` holds elsewhere.
    pub open spec fn shows(self, w: &Witness, before: &Witness, matrix: &Matrix) -> bool {
        &&& w.rows == before.rows
        &&& w.challenges == before.challenges
        &&& self.p_config.shows(w, before, matrix, self.challenges)
        &&& self.m_config.shows(w, before, matrix, self.prp_arg())
        &&& self.i_config.shows(w, before, matrix, self.challenges)
        &&& rs_shows(
            w,
            before,
            self.output_config.val,
            self.output_config.rs,
            self.output_config.s_rs,
            values(matrix.output_matrix@),
            OutputTableConfig::gamma(before, self.challenges),
        )
        &&& rs_shows(
            w,
            before,
            self.input_config.val,
            self.input_config.rs,
            self.input_config.s_rs,
            values(matrix.input_matrix@),
            InputTableConfig::gamma(before, self.challenges),
        )
        &&& rs_shows(
            w,
            before,
            self.program_config.code,
            self.program_config.code_rs,
            self.program_config.s_rs,
            values(matrix.program@),
            ProgramTableConfig::gamma(before, self.challenges),
        )
    }

    /// What `lemma_shows` needs of one step of loading: the rows and the
    /// challenges stay, and so do the fixed cells.
    pub open spec fn kept(a: &Witness, b: &Witness) -> bool {
        &&& a.rows == b.rows
        &&& a.challenges == b.challenges
        &&& forall|c: int, i: int| #[trigger] b.fixed_at(c, i) == a.fixed_at(c, i)
    }

    /// The six loads and the assignment of the hash, one after the other,
    /// leave every table as its own load left it: each table lives in
    /// columns and selectors of its own.
    proof fn lemma_shows(
        self,
        w0: &Witness,
        w1: &Witness,
        w2: &Witness,
        w3: &Witness,
        w4: &Witness,
        w5: &Witness,
        w6: &Witness,
        w7: &Witness,
        matrix: &Matrix,
        input_hash: nat,
        code_hash: nat,
        digest: nat,
    )
        requires
            self.well_formed(),
            w1.rows == w0.rows,
            w1.challenges == w0.challenges,
            Self::kept(w1, w2),
            Self::kept(w2, w3),
            Self::kept(w3, w4),
            Self::kept(w4, w5),
            Self::kept(w5, w6),
            Self::kept(w6, w7),
            self.p_config.loaded(w0, w1, matrix, self.challenges),
            self.m_config.loaded(w1, w2, matrix, self.prp_arg()),
            self.i_config.loaded(w2, w3, matrix, self.challenges),
            forall|c: int, i: int| #[trigger]
                w4.advice_at(c, i) == rs_loaded_advice(
                    w3,
                    self.output_config.val,
                    self.output_config.rs,
                    values(matrix.output_matrix@),
                    OutputTableConfig::gamma(w3, self.challenges),
                    matrix.output_matrix@.len() as int,
                    c,
                    i,
                ),
            forall|s: int, i: int| #[trigger]
                w4.selector_at(s, i) == rs_loaded_selector(
                    w3,
                    self.output_config.s_rs,
                    matrix.output_matrix@.len() as int,
                    s,
                    i,
                ),
            forall|c: int, i: int| #[trigger]
                w5.advice_at(c, i) == self.input_config.loaded_advice(
                    w4,
                    matrix,
                    self.challenges,
                    input_hash,
                    c,
                    i,
                ),
            forall|s: int, i: int| #[trigger]
                w5.selector_at(s, i) == rs_loaded_selector(
                    w4,
                    self.input_config.s_rs,
                    matrix.input_matrix@.len() as int,
                    s,
                    i,
                ),
            forall|c: int, i: int| #[trigger]
                w6.advice_at(c, i) == self.program_config.loaded_advice(
                    w5,
                    matrix,
                    self.challenges,
                    code_hash,
                    c,
                    i,
                ),
            forall|s: int, i: int| #[trigger]
                w6.selector_at(s, i) == rs_loaded_selector(
                    w5,
                    self.program_config.s_rs,
                    matrix.program@.len() as int,
                    s,
                    i,
                ),
            forall|c: int, i: int| #[trigger]
                w7.advice_at(c, i) == if c == self.hash.index && i == 0 {
                    digest
                } else {
                    w6.advice_at(c, i)
                },
            forall|s: int, i: int| #[trigger] w7.selector_at(s, i) == w6.selector_at(s, i),
        ensures
            self.shows(w7, w0, matrix),
    {
        let p = self.p_config;
        assert forall|c: int, i: int| p.owns(c) implies #[trigger] w7.advice_at(c, i)
            == w1.advice_at(c, i) by {
            Self::lemma_pass(self, w1, w2, w3, w4, w5, w6, w7, matrix, input_hash, code_hash, digest, c, i);
        }
        assert forall|s: int, i: int| p.owns_selector(s) implies #[trigger] w7.selector_at(s, i)
            == w1.selector_at(s, i) by {
            assert(w6.selector_at(s, i) == w5.selector_at(s, i));
            assert(w5.selector_at(s, i) == w4.selector_at(s, i));
            assert(w4.selector_at(s, i) == w3.selector_at(s, i));
            assert(w3.selector_at(s, i) == w2.selector_at(s, i));
            assert(w2.selector_at(s, i) == w1.selector_at(s, i));
        }
        assert forall|c: int, i: int| c == p.lookup_table.table.inner.index implies #[trigger]
            w7.fixed_at(c, i) == w1.fixed_at(c, i) by {
            assert(w6.fixed_at(c, i) == w5.fixed_at(c, i));
            assert(w5.fixed_at(c, i) == w4.fixed_at(c, i));
            assert(w4.fixed_at(c, i) == w3.fixed_at(c, i));
            assert(w3.fixed_at(c, i) == w2.fixed_at(c, i));
            assert(w2.fixed_at(c, i) == w1.fixed_at(c, i));
        }
        assert(p.shows(w7, w0, matrix, self.challenges));
        let m = self.m_config;
        assert forall|c: int, i: int| m.owns(c) implies #[trigger] w7.advice_at(c, i)
            == m.loaded_advice(
            w0,
            matrix.memory_matrix@,
            self.prp_arg().init@,
            self.prp_arg().values(w0),
            matrix.memory_matrix@.len() as int,
            c,
            i,
        ) by {
            Self::lemma_pass(self, w1, w2, w3, w4, w5, w6, w7, matrix, input_hash, code_hash, digest, c, i);
            assert(w1.advice_at(c, i) == w0.advice_at(c, i));
        }
        assert forall|s: int, i: int| m.owns_selector(s) implies #[trigger] w7.selector_at(s, i)
            == m.loaded_selector(
            w0,
            matrix.memory_matrix@.len() as int,
            matrix.memory_matrix@.len() as int,
            s,
            i,
        ) by {
            assert(w6.selector_at(s, i) == w5.selector_at(s, i));
            assert(w5.selector_at(s, i) == w4.selector_at(s, i));
            assert(w4.selector_at(s, i) == w3.selector_at(s, i));
            assert(w3.selector_at(s, i) == w2.selector_at(s, i));
            assert(w1.selector_at(s, i) == w0.selector_at(s, i));
        }
        let t = self.i_config;
        assert forall|c: int, i: int| t.owns(c) implies #[trigger] w7.advice_at(c, i)
            == t.loaded_advice(
            w0,
            matrix.instruction_matrix@,
            self.challenges,
            matrix.instruction_matrix@.len() as int,
            c,
            i,
        ) by {
            Self::lemma_pass(self, w1, w2, w3, w4, w5, w6, w7, matrix, input_hash, code_hash, digest, c, i);
            assert(w2.advice_at(c, i) == w1.advice_at(c, i));
            assert(w1.advice_at(c, i) == w0.advice_at(c, i));
        }
        assert forall|s: int, i: int| t.owns_selector(s) implies #[trigger] w7.selector_at(s, i)
            == t.loaded_selector(
            w0,
            matrix.instruction_matrix@.len() as int,
            matrix.instruction_matrix@.len() as int,
            s,
            i,
        ) by {
            assert(w6.selector_at(s, i) == w5.selector_at(s, i));
            assert(w5.selector_at(s, i) == w4.selector_at(s, i));
            assert(w4.selector_at(s, i) == w3.selector_at(s, i));
            assert(w2.selector_at(s, i) == w1.selector_at(s, i));
            assert(w1.selector_at(s, i) == w0.selector_at(s, i));
        }
        let o = self.output_config;
        assert forall|c: int, i: int| c == o.val.index || c == o.rs.index implies #[trigger]
            w7.advice_at(c, i) == rs_loaded_advice(
            w0,
            o.val,
            o.rs,
            values(matrix.output_matrix@),
            OutputTableConfig::gamma(w0, self.challenges),
            matrix.output_matrix@.len() as int,
            c,
            i,
        ) by {
            Self::lemma_pass(self, w1, w2, w3, w4, w5, w6, w7, matrix, input_hash, code_hash, digest, c, i);
            assert(w3.advice_at(c, i) == w2.advice_at(c, i));
            assert(w2.advice_at(c, i) == w1.advice_at(c, i));
            assert(w1.advice_at(c, i) == w0.advice_at(c, i));
        }
        assert forall|s: int, i: int| s == o.s_rs.0 implies #[trigger] w7.selector_at(s, i)
            == rs_loaded_selector(w0, o.s_rs, matrix.output_matrix@.len() as int, s, i) by {
            assert(w6.selector_at(s, i) == w5.selector_at(s, i));
            assert(w5.selector_at(s, i) == w4.selector_at(s, i));
            assert(w3.selector_at(s, i) == w2.selector_at(s, i));
            assert(w2.selector_at(s, i) == w1.selector_at(s, i));
            assert(w1.selector_at(s, i) == w0.selector_at(s, i));
        }
        let n = self.input_config;
        assert forall|c: int, i: int| c == n.val.index || c == n.rs.index implies #[trigger]
            w7.advice_at(c, i) == rs_loaded_advice(
            w0,
            n.val,
            n.rs,
            values(matrix.input_matrix@),
            InputTableConfig::gamma(w0, self.challenges),
            matrix.input_matrix@.len() as int,
            c,
            i,
        ) by {
            Self::lemma_pass(self, w1, w2, w3, w4, w5, w6, w7, matrix, input_hash, code_hash, digest, c, i);
            assert(w4.advice_at(c, i) == w3.advice_at(c, i));
            assert(w3.advice_at(c, i) == w2.advice_at(c, i));
            assert(w2.advice_at(c, i) == w1.advice_at(c, i));
            assert(w1.advice_at(c, i) == w0.advice_at(c, i));
        }
        assert forall|s: int, i: int| s == n.s_rs.0 implies #[trigger] w7.selector_at(s, i)
            == rs_loaded_selector(w0, n.s_rs, matrix.input_matrix@.len() as int, s, i) by {
            assert(w6.selector_at(s, i) == w5.selector_at(s, i));
            assert(w4.selector_at(s, i) == w3.selector_at(s, i));
            assert(w3.selector_at(s, i) == w2.selector_at(s, i));
            assert(w2.selector_at(s, i) == w1.selector_at(s, i));
            assert(w1.selector_at(s, i) == w0.selector_at(s, i));
        }
        let g = self.program_config;
        assert forall|c: int, i: int| c == g.code.index || c == g.code_rs.index implies #[trigger]
            w7.advice_at(c, i) == rs_loaded_advice(
            w0,
            g.code,
            g.code_rs,
            values(matrix.program@),
            ProgramTableConfig::gamma(w0, self.challenges),
            matrix.program@.len() as int,
            c,
            i,
        ) by {
            Self::lemma_pass(self, w1, w2, w3, w4, w5, w6, w7, matrix, input_hash, code_hash, digest, c, i);
            assert(w5.advice_at(c, i) == w4.advice_at(c, i));
            assert(w4.advice_at(c, i) == w3.advice_at(c, i));
            assert(w3.advice_at(c, i) == w2.advice_at(c, i));
            assert(w2.advice_at(c, i) == w1.advice_at(c, i));
            assert(w1.advice_at(c, i) == w0.advice_at(c, i));
        }
        assert forall|s: int, i: int| s == g.s_rs.0 implies #[trigger] w7.selector_at(s, i)
            == rs_loaded_selector(w0, g.s_rs, matrix.program@.len() as int, s, i) by {
            assert(w5.selector_at(s, i) == w4.selector_at(s, i));
            assert(w4.selector_at(s, i) == w3.selector_at(s, i));
            assert(w3.selector_at(s, i) == w2.selector_at(s, i));
            assert(w2.selector_at(s, i) == w1.selector_at(s, i));
            assert(w1.selector_at(s, i) == w0.selector_at(s, i));
        }
    }

    /// A witness with the same cells and selectors shows the same tables.
    pub proof fn lemma_shows_same(self, a: &Witness, b: &Witness, before: &Witness, matrix: &Matrix)
        requires
            self.shows(a, before, matrix),
            b.rows == a.rows,
            b.challenges == a.challenges,
            forall|c: int, i: int| #[trigger] b.advice_at(c, i) == a.advice_at(c, i),
            forall|c: int, i: int| #[trigger] b.selector_at(c, i) == a.selector_at(c, i),
            forall|c: int, i: int| #[trigger] b.fixed_at(c, i) == a.fixed_at(c, i),
        ensures
            self.shows(b, before, matrix),
    {
    }

    /// The advice cell `(c, i)` after the last step, in terms of the cells
    /// after each earlier step: every step leaves the cells of the other
    /// tables alone.
    proof fn lemma_pass(
        self,
        w1: &Witness,
        w2: &Witness,
        w3: &Witness,
        w4: &Witness,
        w5: &Witness,
        w6: &Witness,
        w7: &Witness,
        matrix: &Matrix,
        input_hash: nat,
        code_hash: nat,
        digest: nat,
        c: int,
        i: int,
    )
        requires
            self.well_formed(),
            c != self.hash.index,
            c != self.input_config.hash.index,
            c != self.input_config.nil_input_hash.index,
            c != self.program_config.hash.index,
            w2.challenges == w1.challenges,
            w3.challenges == w1.challenges,
            w4.challenges == w1.challenges,
            w5.challenges == w1.challenges,
            forall|c: int, i: int| #[trigger]
                w2.advice_at(c, i) == self.m_config.loaded_advice(
                    w1,
                    matrix.memory_matrix@,
                    self.prp_arg().init@,
                    self.prp_arg().values(w1),
                    matrix.memory_matrix@.len() as int,
                    c,
                    i,
                ),
            forall|c: int, i: int| #[trigger]
                w3.advice_at(c, i) == self.i_config.loaded_advice(
                    w2,
                    matrix.instruction_matrix@,
                    self.challenges,
                    matrix.instruction_matrix@.len() as int,
                    c,
                    i,
                ),
            forall|c: int, i: int| #[trigger]
                w4.advice_at(c, i) == rs_loaded_advice(
                    w3,
                    self.output_config.val,
                    self.output_config.rs,
                    values(matrix.output_matrix@),
                    OutputTableConfig::gamma(w3, self.challenges),
                    matrix.output_matrix@.len() as int,
                    c,
                    i,
                ),
            forall|c: int, i: int| #[trigger]
                w5.advice_at(c, i) == self.input_config.loaded_advice(
                    w4,
                    matrix,
                    self.challenges,
                    input_hash,
                    c,
                    i,
                ),
            forall|c: int, i: int| #[trigger]
                w6.advice_at(c, i) == self.program_config.loaded_advice(
                    w5,
                    matrix,
                    self.challenges,
                    code_hash,
                    c,
                    i,
                ),
            forall|c: int, i: int| #[trigger]
                w7.advice_at(c, i) == if c == self.hash.index && i == 0 {
                    digest
                } else {
                    w6.advice_at(c, i)
                },
        ensures
            w7.advice_at(c, i) == w6.advice_at(c, i),
            !(c == self.program_config.code.index || c == self.program_config.code_rs.index)
                ==> w6.advice_at(c, i) == w5.advice_at(c, i),
            c == self.program_config.code.index || c == self.program_config.code_rs.index
                ==> w6.advice_at(c, i) == rs_loaded_advice(
                w5,
                self.program_config.code,
                self.program_config.code_rs,
                values(matrix.program@),
                ProgramTableConfig::gamma(w1, self.challenges),
                matrix.program@.len() as int,
                c,
                i,
            ),
            !(c == self.input_config.val.index || c == self.input_config.rs.index)
                ==> w5.advice_at(c, i) == w4.advice_at(c, i),
            c == self.input_config.val.index || c == self.input_config.rs.index
                ==> w5.advice_at(c, i) == rs_loaded_advice(
                w4,
                self.input_config.val,
                self.input_config.rs,
                values(matrix.input_matrix@),
                InputTableConfig::gamma(w1, self.challenges),
                matrix.input_matrix@.len() as int,
                c,
                i,
            ),
            !(c == self.output_config.val.index || c == self.output_config.rs.index)
                ==> w4.advice_at(c, i) == w3.advice_at(c, i),
            c == self.output_config.val.index || c == self.output_config.rs.index
                ==> w4.advice_at(c, i) == rs_loaded_advice(
                w3,
                self.output_config.val,
                self.output_config.rs,
                values(matrix.output_matrix@),
                OutputTableConfig::gamma(w1, self.challenges),
                matrix.output_matrix@.len() as int,
                c,
                i,
            ),
            !self.i_config.owns(c) ==> w3.advice_at(c, i) == w2.advice_at(c, i),
            self.i_config.owns(c) ==> w3.advice_at(c, i) == self.i_config.loaded_advice(
                w2,
                matrix.instruction_matrix@,
                self.challenges,
                matrix.instruction_matrix@.len() as int,
                c,
                i,
            ),
            !self.m_config.owns(c) ==> w2.advice_at(c, i) == w1.advice_at(c, i),
            self.m_config.owns(c) ==> w2.advice_at(c, i) == self.m_config.loaded_advice(
                w1,
                matrix.memory_matrix@,
                self.prp_arg().init@,
                self.prp_arg().values(w1),
                matrix.memory_matrix@.len() as int,
                c,
                i,
            ),
    {
    }

    /// Loads the six tables of `matrix` into `witness`, computes the hash
    /// of program and input with `hasher`, and constrains the hash to the
    /// public hash and the final accumulators of the tables to each other.
    #[verifier::rlimit(40)]
    pub fn load_table<F: Fn([Fr; 2]) -> Result<Fr, Error>>(
        &self,
        witness: &mut Witness,
        matrix: &Matrix,
        hasher: &F,
    ) -> (r: Result<(), Error>)
        requires
            old(witness).well_formed(),
            self.well_formed(),
            matrix.program@.len() > 0,
            forall|pair: [Fr; 2]| #[trigger] hasher.requires((pair,)),
        ensures
            final(witness).well_formed(),
            final(witness).rows == old(witness).rows,
            final(witness).instance == old(witness).instance,
            final(witness).challenges == old(witness).challenges,
            r.is_ok() ==> self.fits(old(witness), matrix),
            match r {
                Err(e) => self.fits(old(witness), matrix) ==> exists|pair: [Fr; 2]| #[trigger]
                    hasher.ensures((pair,), Err::<Fr, Error>(e)),
                Ok(_) => true,
            },
            r.is_ok() ==> final(witness).copies@ == old(witness).copies@ + self.linked_cells(matrix),
            r.is_ok() ==> exists|hash: Fr| #[trigger]
                binds(matrix.program@, matrix.input_matrix@, hasher, hash)
                    && final(witness).advice_at(self.hash.index as int, 0) == hash@,
            r.is_ok() ==> self.accumulators_loaded(old(witness), final(witness), matrix),
            r.is_ok() ==> self.shows(final(witness), old(witness), matrix),
    {
        let ghost before = *witness;
        let prp_arg = PrpArg {
            init: self.challenges.mem_prp_init,
            challenges: self.challenges.get_mem_prp_challenges(),
        };
        proof {
            assert(prp_arg.challenges =~= self.prp_arg().challenges);
            assert(prp_arg == self.prp_arg());
        }
        let (processor_mem_prp, processor_output_rs, processor_input_rs, processor_inst_prp) =
            self.p_config.load_table(witness, matrix, self.challenges)?;
        let ghost w1 = *witness;
        let memory_prp = self.m_config.load_table(witness, matrix, prp_arg)?;
        let ghost w2 = *witness;
        let (inst_code_rs, inst_prp) = self.i_config.load_table(witness, matrix, self.challenges)?;
        let ghost w3 = *witness;
        let output_rs = self.output_config.load_table(witness, matrix, self.challenges)?;
        let ghost w4 = *witness;
        let (input_hash, input_rs) = self.input_config.load_table(
            witness,
            matrix,
            self.challenges,
            hasher,
        )?;
        let ghost w5 = *witness;
        let (code_hash, code_rs) = self.program_config.load_table(
            witness,
            matrix,
            self.challenges,
            hasher,
        )?;
        let ghost w6 = *witness;
        if self.hash.index >= witness.advice.len() {
            return Err(Error::BoundsFailure);
        }
        let mut both: Vec<Fr> = Vec::new();
        both.push(code_hash.value);
        both.push(input_hash.value);
        assert(both@ =~= seq![code_hash.value, input_hash.value]);
        let digest = match poseidon_hash(both, hasher) {
            Ok(v) => v,
            Err(e) => {
                return Err(e);
            },
        };
        let hash = witness.assign_advice(self.hash, 0, digest)?;
        let ghost w7 = *witness;
        witness.constrain_instance(hash.cell, self.expected_hash, 0);
        witness.constrain_equal(processor_mem_prp.cell, memory_prp.cell);
        witness.constrain_equal(output_rs.cell, processor_output_rs.cell);
        witness.constrain_equal(input_rs.cell, processor_input_rs.cell);
        witness.constrain_equal(processor_inst_prp.cell, inst_prp.cell);
        witness.constrain_equal(code_rs.cell, inst_code_rs.cell);
        proof {
            assert(witness.copies@ =~= before.copies@ + self.linked_cells(matrix));
            assert(binds(matrix.program@, matrix.input_matrix@, hasher, digest));
            assert(w1.advice_at(
                self.p_config.mem_prp.index as int,
                matrix.processor_matrix@.len() as int,
            ) == processor_mem_prp.value@);
            self.lemma_shows(
                &before,
                &w1,
                &w2,
                &w3,
                &w4,
                &w5,
                &w6,
                &w7,
                matrix,
                input_hash.value@,
                code_hash.value@,
                digest@,
            );
            self.lemma_shows_same(&w7, witness, &before, matrix);
        }
        Ok(())
    }

    /// After loading, the ten cells of the final accumulators hold the
    /// accumulators of `matrix` under the challenges of `before`.
    pub open spec fn accumulators_loaded(self, before: &Witness, after: &Witness, matrix: &Matrix) -> bool {
        let registers = register_views(matrix.processor_matrix@);
        let ch = ProcessorTableConfig::challenge_values(before, self.challenges);
        let code_gamma = before.challenge_at(self.challenges.challenges@[8].index as int);
        let p = registers.len() as int;
        let i = matrix.instruction_matrix@.len() as int;
        &&& after.advice_at(self.p_config.mem_prp.index as int, p) == processor_mem_prp(
            registers,
            ch.mem_init,
            ch.mem,
        )
        &&& after.advice_at(self.p_config.inst_prp.index as int, p) == processor_inst_prp(
            registers,
            ch.inst_init,
            ch.inst,
        )
        &&& after.advice_at(self.p_config.output_rs.index as int, p) == processor_output_rs(
            registers,
            ch.out_gamma,
            registers.len(),
        )
        &&& after.advice_at(self.p_config.input_rs.index as int, p) == processor_input_rs(
            registers,
            ch.in_gamma,
            registers.len(),
        )
        &&& after.advice_at(self.m_config.prp.index as int, matrix.memory_matrix@.len() as int)
            == memory_prp(matrix.memory_matrix@, ch.mem_init, ch.mem)
        &&& after.advice_at(self.i_config.prp.index as int, i) == instruction_prp(
            matrix.instruction_matrix@,
            ch.inst_init,
            ch.inst,
            matrix.instruction_matrix@.len(),
        )
        &&& after.advice_at(self.i_config.rs.index as int, i) == instruction_rs(
            matrix.instruction_matrix@,
            code_gamma,
            matrix.instruction_matrix@.len(),
        )
        &&& after.advice_at(self.output_config.rs.index as int, matrix.output_matrix@.len() as int)
            == running_sum(values(matrix.output_matrix@), ch.out_gamma)
        &&& after.advice_at(self.input_config.rs.index as int, matrix.input_matrix@.len() as int)
            == running_sum(values(matrix.input_matrix@), ch.in_gamma)
        &&& after.advice_at(self.program_config.code_rs.index as int, matrix.program@.len() as int)
            == running_sum(values(matrix.program@), code_gamma)
    }
}

impl MainConfig {
    /// The tables of the trace of an execution that halted agree on their
    /// final accumulators, whatever the seeds and the challenges: the
    /// memory table with the processor table on the memory running
    /// product, the output and input tables with the processor table on
    /// the two running sums, the instruction table with the processor
    /// table on the instruction running product and with the program on
    /// the code running sum.
    pub proof fn lemma_trace_agrees(
        self,
        witness: &Witness,
        matrix: &Matrix,
        code: Seq<nat>,
        input: Seq<nat>,
        bits: u64,
        n: nat,
    )
        requires
            is_trace(*matrix, code, input, bits, n),
            runs_for(code, input, bits, n),
            vm_status(code, vm_at(code, input, bits, n)) == Status::Halted,
            code.len() > 0,
        ensures
            self.accumulators_agree(witness, matrix),
    {
        let ch = ProcessorTableConfig::challenge_values(witness, self.challenges);
        let code_gamma = witness.challenge_at(self.challenges.challenges@[8].index as int);
        lemma_mem_prp_matches(*matrix, code, input, bits, n, ch.mem_init, ch.mem);
        lemma_output_rs_matches(*matrix, code, input, bits, n, ch.out_gamma);
        lemma_input_rs_matches(*matrix, code, input, bits, n, ch.in_gamma);
        lemma_inst_prp_matches(*matrix, code, input, bits, n, ch.inst_init, ch.inst);
        lemma_code_rs_matches(*matrix, code, input, bits, n, code_gamma);
    }

    /// Where the final accumulators agree, the cells that loading
    /// constrains equal hold equal values: all but the first pair, which
    /// ties the hash to the public hash.
    pub proof fn lemma_links_hold(self, before: &Witness, after: &Witness, matrix: &Matrix)
        requires
            self.well_formed(),
            self.accumulators_loaded(before, after, matrix),
            self.accumulators_agree(before, matrix),
        ensures
            forall|k: int|
                1 <= k < 6 ==> after.cell_value((#[trigger] self.linked_cells(matrix)[k]).0)
                    == after.cell_value(self.linked_cells(matrix)[k].1),
    {
        vstd::std_specs::vec::axiom_spec_len(&matrix.processor_matrix);
        vstd::std_specs::vec::axiom_spec_len(&matrix.memory_matrix);
        vstd::std_specs::vec::axiom_spec_len(&matrix.instruction_matrix);
        vstd::std_specs::vec::axiom_spec_len(&matrix.input_matrix);
        vstd::std_specs::vec::axiom_spec_len(&matrix.output_matrix);
        vstd::std_specs::vec::axiom_spec_len(&matrix.program);
        let cells = self.linked_cells(matrix);
        assert(after.cell_value(cells[1].0) == after.cell_value(cells[1].1));
        assert(after.cell_value(cells[2].0) == after.cell_value(cells[2].1));
        assert(after.cell_value(cells[3].0) == after.cell_value(cells[3].1));
        assert(after.cell_value(cells[4].0) == after.cell_value(cells[4].1));
        assert(after.cell_value(cells[5].0) == after.cell_value(cells[5].1));
    }
}

/// A trace to be proved, with the bound on its memory values.
pub struct MyCircuit {
    pub matrix: Matrix,
    pub range: usize,
}

impl MyCircuit {
    /// The circuit for `matrix` with memory values below 256.
    pub fn new(matrix: Matrix) -> (r: Self)
        ensures
            r.matrix == matrix,
            r.range == 256,
    {
        Self { matrix, range: 256 }
    }

    /// The circuit for `matrix` with memory values below `range`.
    pub fn with_range(matrix: Matrix, range: usize) -> (r: Self)
        ensures
            r.matrix == matrix,
            r.range == range,
    {
        Self { matrix, range }
    }

    /// The circuit without a trace.
    pub fn without_witnesses(&self) -> (r: Self)
        ensures
            r.range == self.range,
            r.matrix.processor_matrix@.len() == 0,
            r.matrix.instruction_matrix@.len() == 0,
            r.matrix.memory_matrix@.len() == 0,
            r.matrix.input_matrix@.len() == 0,
            r.matrix.output_matrix@.len() == 0,
            r.matrix.program@.len() == 0,
    {
        Self { matrix: Matrix::default(), range: self.range }
    }

    /// Configures the circuit: the six tables and their gates.
    pub fn configure(&self, cs: &mut ConstraintSystem, mem_prp_init: Fr, inst_prp_init: Fr) -> (r:
        MainConfig)
        requires
            old(cs).well_formed(),
            self.range > 0,
            old(cs).num_advice_columns <= usize::MAX - 30,
            old(cs).num_fixed_columns < usize::MAX,
            old(cs).num_instance_columns < usize::MAX,
            old(cs).num_selectors <= usize::MAX - 15,
            old(cs).num_challenges <= usize::MAX - 11,
        ensures
            r.well_formed(),
            r.p_config.lookup_table.range == self.range,
            final(cs).well_formed(),
            final(cs).gates@.len() == old(cs).gates@.len() + 27,
            forall|k: int, env: Env|
                0 <= k < 27 ==> #[trigger] final(cs).gates@[old(cs).gates@.len() + k].polys@[0].value(
                    env,
                ) == r.gate(k, env),
    {
        MainConfig::configure(cs, self.range, mem_prp_init, inst_prp_init)
    }

    /// Loads the trace into `witness`: the six tables, the hash of program
    /// and input, and the constraints that tie the hash to the public hash
    /// and the final accumulators of the tables to each other.
    ///
    /// The trace is loaded whenever `witness` fits it and the hasher gives
    /// a hash for every pair it is asked for: an error comes only where
    /// `witness` does not fit, or from the hasher.
    pub fn synthesize<F: Fn([Fr; 2]) -> Result<Fr, Error>>(
        &self,
        config: MainConfig,
        witness: &mut Witness,
        hasher: &F,
    ) -> (r: Result<(), Error>)
        requires
            old(witness).well_formed(),
            config.well_formed(),
            self.matrix.program@.len() > 0,
            forall|pair: [Fr; 2]| #[trigger] hasher.requires((pair,)),
        ensures
            final(witness).well_formed(),
            final(witness).rows == old(witness).rows,
            final(witness).instance == old(witness).instance,
            final(witness).challenges == old(witness).challenges,
            r.is_ok() ==> config.fits(old(witness), &self.matrix),
            match r {
                Err(e) => config.fits(old(witness), &self.matrix) ==> exists|pair: [Fr; 2]| #[trigger]
                    hasher.ensures((pair,), Err::<Fr, Error>(e)),
                Ok(_) => true,
            },
            r.is_ok() ==> final(witness).copies@ == old(witness).copies@ + config.linked_cells(
                &self.matrix,
            ),
            r.is_ok() ==> exists|hash: Fr| #[trigger]
                binds(self.matrix.program@, self.matrix.input_matrix@, hasher, hash)
                    && final(witness).advice_at(config.hash.index as int, 0) == hash@,
            r.is_ok() ==> config.accumulators_loaded(old(witness), final(witness), &self.matrix),
            r.is_ok() ==> config.shows(final(witness), old(witness), &self.matrix),
    {
        config.load_table(witness, &self.matrix, hasher)
    }
}

} // verus!
