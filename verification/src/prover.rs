//! Accepting a trace: builds the circuit, loads the trace into an assignment
//! and checks every constraint.

use crate::acceptance::lemma_accumulators_agree;
use crate::acceptance::lemma_hash_is_public;
use crate::acceptance::lemma_value_in_range;
use crate::bn256::fr::fr_modulus;
use crate::bn256::fr::Fr;
use crate::code::balanced;
use crate::code::compiled;
use crate::code::values;
use crate::completeness::circuit::is_circuit;
use crate::completeness::circuit::is_honest;
use crate::completeness::circuit::is_loaded;
use crate::completeness::circuit::lemma_complete;
use crate::completeness::field::inverses_for;
use crate::interpreter::is_trace;
use crate::interpreter::register_views;
use crate::interpreter::runs_for;
use crate::interpreter::vm_at;
use crate::interpreter::vm_status;
use crate::interpreter::Status;
use crate::invariants::lemma_boundary;
use crate::jumps::lemma_compiled_closed;
use crate::jumps::lemma_halts_at_end;
use crate::jumps::marks;
use crate::linkage::instruction_prp;
use crate::linkage::instruction_rs;
use crate::linkage::lemma_halted_instruction;
use crate::linkage::memory_prp;
use crate::linkage::processor_input_rs;
use crate::linkage::processor_inst_prp;
use crate::linkage::processor_mem_prp;
use crate::linkage::processor_output_rs;
use crate::linkage::running_sum;
use crate::linkage::PrpChallenges;
use crate::main_config::MainConfig;
use crate::main_config::MyCircuit;
use crate::matrix::Matrix;
use crate::plonk::constraint_system::ConstraintSystem;
use crate::plonk::witness::Error;
use crate::plonk::witness::VerifyFailure;
use crate::plonk::witness::Witness;
use crate::poseidon_hash::binds;
use crate::poseidon_hash::deterministic;
use crate::poseidon_hash::lemma_reduction_deterministic;
use crate::poseidon_hash::reduces_to;
use vstd::arithmetic::power2::pow2;
use vstd::prelude::*;

verus! {

/// Why a trace was not accepted.
#[derive(Clone, Copy, Debug, PartialEq, Eq, Structural)]
pub enum Failure {
    /// The trace could not be loaded into the assignment.
    Load(Error),
    /// The assignment does not satisfy the circuit.
    Verify(VerifyFailure),
}

/// `hasher` gives a hash for every pair.
pub open spec fn always_hashes<F: Fn([Fr; 2]) -> Result<Fr, Error>>(hasher: &F) -> bool {
    forall|pair: [Fr; 2], r: Result<Fr, Error>| #[trigger] hasher.ensures((pair,), r) ==> r.is_ok()
}

/// An assignment of `rows` rows with `challenges` challenges has room for
/// the tables of `circuit`.
pub open spec fn has_room(circuit: &MyCircuit, rows: usize, challenges: int) -> bool {
    &&& challenges >= 11
    &&& circuit.range <= rows
    &&& circuit.matrix.processor_matrix@.len() < rows
    &&& circuit.matrix.memory_matrix@.len() < rows
    &&& circuit.matrix.instruction_matrix@.len() < rows
    &&& circuit.matrix.output_matrix@.len() < rows
    &&& circuit.matrix.input_matrix@.len() < rows
    &&& circuit.matrix.program@.len() < rows
}

/// The matrix of `circuit` is the trace of the execution of `code` on
/// `input`, which halts after `n` cycles at the end of the program; memory
/// values have `bits` bits, which is the circuit's range, and so have the
/// inputs. With more than eight bits the values a cell may hold must have
/// inverses, which they have in a prime field.
pub open spec fn honest(circuit: &MyCircuit, code: Seq<nat>, input: Seq<nat>, bits: u64, n: nat) -> bool {
    &&& is_trace(circuit.matrix, code, input, bits, n)
    &&& runs_for(code, input, bits, n)
    &&& vm_status(code, vm_at(code, input, bits, n)) == Status::Halted
    &&& vm_at(code, input, bits, n).register.instruction_pointer == code.len()
    &&& code.len() > 0
    &&& bits < 64
    &&& circuit.range == pow2(bits as nat)
    &&& n <= u64::MAX
    &&& forall|i: int| 0 <= i < input.len() ==> #[trigger] input[i] < pow2(bits as nat)
    &&& inverses_for(bits)
}

/// The final accumulators of the tables of `matrix` agree pairwise under
/// the two seeds and the first eleven of `challenges`: four challenges for
/// the memory running product, four for the instruction running product,
/// then one for each of the code, output and input running sums.
pub open spec fn agree(matrix: &Matrix, challenges: Seq<Fr>, mem_prp_init: Fr, inst_prp_init: Fr) -> bool {
    let registers = register_views(matrix.processor_matrix@);
    let mem = PrpChallenges {
        alpha: challenges[0]@,
        d: challenges[1]@,
        e: challenges[2]@,
        f: challenges[3]@,
    };
    let inst = PrpChallenges {
        alpha: challenges[4]@,
        d: challenges[5]@,
        e: challenges[6]@,
        f: challenges[7]@,
    };
    &&& challenges.len() >= 11
    &&& processor_mem_prp(registers, mem_prp_init@, mem) == memory_prp(
        matrix.memory_matrix@,
        mem_prp_init@,
        mem,
    )
    &&& running_sum(values(matrix.output_matrix@), challenges[9]@) == processor_output_rs(
        registers,
        challenges[9]@,
        registers.len(),
    )
    &&& running_sum(values(matrix.input_matrix@), challenges[10]@) == processor_input_rs(
        registers,
        challenges[10]@,
        registers.len(),
    )
    &&& processor_inst_prp(registers, inst_prp_init@, inst) == instruction_prp(
        matrix.instruction_matrix@,
        inst_prp_init@,
        inst,
        matrix.instruction_matrix@.len(),
    )
    &&& running_sum(values(matrix.program@), challenges[8]@) == instruction_rs(
        matrix.instruction_matrix@,
        challenges[8]@,
        matrix.instruction_matrix@.len(),
    )
}

/// What an accepted trace has passed: the public hash binds the program
/// and what the program read, every memory value, as a residue, is below
/// the circuit's range, and the tables agree on their final accumulators.
pub open spec fn checked<F: Fn([Fr; 2]) -> Result<Fr, Error>>(
    circuit: &MyCircuit,
    expected_hash: Fr,
    challenges: Seq<Fr>,
    mem_prp_init: Fr,
    inst_prp_init: Fr,
    hasher: &F,
) -> bool {
    &&& binds(circuit.matrix.program@, circuit.matrix.input_matrix@, hasher, expected_hash)
    &&& forall|j: int|
        0 <= j < circuit.matrix.processor_matrix@.len() ==> (
        #[trigger] circuit.matrix.processor_matrix@[j]).memory_value@ % fr_modulus() < circuit.range
    &&& agree(&circuit.matrix, challenges, mem_prp_init, inst_prp_init)
}

/// `w` is the assignment that `prove_and_verify` checks against `cs`: `cs`
/// is the circuit that `config` describes, with the two seeds, and `w` is
/// what loading the trace of `circuit` into the blank assignment `before`
/// of `rows` rows, with the challenges given, leaves.
pub open spec fn holds_trace<F: Fn([Fr; 2]) -> Result<Fr, Error>>(
    config: MainConfig,
    cs: &ConstraintSystem,
    w: &Witness,
    before: &Witness,
    circuit: &MyCircuit,
    expected_hash: Fr,
    rows: usize,
    challenges: Seq<Fr>,
    mem_prp_init: Fr,
    inst_prp_init: Fr,
    hasher: &F,
) -> bool {
    &&& is_circuit(config, cs)
    &&& numbered(config, cs, circuit.range)
    &&& config.challenges.mem_prp_init == mem_prp_init
    &&& config.challenges.inst_prp_init == inst_prp_init
    &&& before.rows == rows
    &&& before.challenges@ == challenges
    &&& filled(config, w, before, circuit, expected_hash, hasher)
}

/// The trace of a program compiled from balanced code, recorded on a
/// machine that halted, is the trace of an honest execution: a compiled
/// program halts only at its end.
pub proof fn lemma_compiled_honest(
    circuit: &MyCircuit,
    source: Seq<u8>,
    input: Seq<nat>,
    bits: u64,
    n: nat,
)
    requires
        balanced(source),
        compiled(source).len() > 0,
        is_trace(circuit.matrix, compiled(source), input, bits, n),
        runs_for(compiled(source), input, bits, n),
        vm_status(compiled(source), vm_at(compiled(source), input, bits, n)) == Status::Halted,
        bits < 64,
        inverses_for(bits),
        circuit.range == pow2(bits as nat),
        n <= u64::MAX,
        forall|i: int| 0 <= i < input.len() ==> #[trigger] input[i] < pow2(bits as nat),
    ensures
        honest(circuit, compiled(source), input, bits, n),
{
    lemma_compiled_closed(source);
    lemma_halts_at_end(compiled(source), marks(source), input, bits, n);
}

/// With a hasher that gives one result for one pair, a program and an
/// input are bound to one hash.
pub proof fn lemma_binds_once<F: Fn([Fr; 2]) -> Result<Fr, Error>>(
    program: Seq<Fr>,
    input: Seq<Fr>,
    hasher: &F,
    a: Fr,
    b: Fr,
)
    requires
        deterministic(hasher),
        binds(program, input, hasher, a),
        binds(program, input, hasher, b),
    ensures
        a == b,
{
    let message = crate::poseidon_hash::input_message(input);
    let (pa, ia) = choose|program_hash: Fr, input_hash: Fr|
        #[trigger] reduces_to(program, hasher, program_hash) && #[trigger] reduces_to(
            message,
            hasher,
            input_hash,
        ) && reduces_to(seq![program_hash, input_hash], hasher, a);
    let (pb, ib) = choose|program_hash: Fr, input_hash: Fr|
        #[trigger] reduces_to(program, hasher, program_hash) && #[trigger] reduces_to(
            message,
            hasher,
            input_hash,
        ) && reduces_to(seq![program_hash, input_hash], hasher, b);
    lemma_reduction_deterministic(program, hasher, pa, pb);
    lemma_reduction_deterministic(message, hasher, ia, ib);
    lemma_reduction_deterministic(seq![pa, ia], hasher, a, b);
}

/// The columns, selectors and challenges of `config` are those of `cs`,
/// numbered from zero, and the range check of `config` is for `range`.
#[verifier::opaque]
pub open spec fn numbered(config: MainConfig, cs: &ConstraintSystem, range: usize) -> bool {
    &&& config.well_formed()
    &&& config.p_config.lookup_table.range == range
    &&& config.hash.index < cs.num_advice_columns
    &&& config.program_config.s_rs.0 < cs.num_selectors
    &&& config.p_config.lookup_table.table.inner.index < cs.num_fixed_columns
    &&& config.expected_hash.index < cs.num_instance_columns
    &&& forall|k: int| 0 <= k < 11 ==> (#[trigger] config.challenges.challenges@[k]).index == k
}

/// `w` is what loading the matrix of `circuit` into some blank assignment
/// leaves, with `expected_hash` as the public hash and a hash that binds
/// the program and what it read in the hash cell.
#[verifier::opaque]
pub open spec fn filled<F: Fn([Fr; 2]) -> Result<Fr, Error>>(
    config: MainConfig,
    w: &Witness,
    before: &Witness,
    circuit: &MyCircuit,
    expected_hash: Fr,
    hasher: &F,
) -> bool {
    &&& before.blank()
    &&& config.fits(before, &circuit.matrix)
    &&& config.shows(w, before, &circuit.matrix)
    &&& config.accumulators_loaded(before, w, &circuit.matrix)
    &&& w.copies@ == config.linked_cells(&circuit.matrix)
    &&& w.instance_at(config.expected_hash.index as int, 0) == expected_hash@
    &&& exists|hash: Fr| #[trigger]
        binds(circuit.matrix.program@, circuit.matrix.input_matrix@, hasher, hash) && w.advice_at(
            config.hash.index as int,
            0,
        ) == hash@
}

/// A blank assignment with room takes the trace of an honest execution.
proof fn lemma_fits(
    config: MainConfig,
    cs: &ConstraintSystem,
    circuit: &MyCircuit,
    before: &Witness,
    code: Seq<nat>,
    input: Seq<nat>,
    bits: u64,
    n: nat,
)
    requires
        numbered(config, cs, circuit.range),
        honest(circuit, code, input, bits, n),
        has_room(circuit, before.rows, before.challenges@.len() as int),
        before.advice@.len() == cs.num_advice_columns,
        before.fixed@.len() == cs.num_fixed_columns,
        before.selectors@.len() == cs.num_selectors,
    ensures
        config.fits(before, &circuit.matrix),
{
    reveal(numbered);
    let matrix = &circuit.matrix;
    lemma_boundary(*matrix, code, input, bits, n);
    lemma_halted_instruction(code, input, bits, n);
    let rows = matrix.processor_matrix@;
    let registers = crate::interpreter::register_views(rows);
    assert forall|j: int| 0 <= j < rows.len() implies #[trigger] config.p_config.row_fits(
        before.rows as int,
        before.advice@.len() as int,
        before.selectors@.len() as int,
        matrix,
        j,
    ) by {
        assert(registers[j] == rows[j]@);
        assert(registers[j] == vm_at(code, input, bits, j as nat).register);
    }
    assert(config.prp_arg().challenges@[0] == config.challenges.challenges@[0]);
    assert(config.prp_arg().challenges@[1] == config.challenges.challenges@[1]);
    assert(config.prp_arg().challenges@[2] == config.challenges.challenges@[2]);
    assert(config.prp_arg().challenges@[3] == config.challenges.challenges@[3]);
}

/// An assignment filled with the trace of an honest execution satisfies
/// the circuit, where the hasher gives one result for one pair and the
/// public hash binds the program and what it read.
proof fn lemma_accepted<F: Fn([Fr; 2]) -> Result<Fr, Error>>(
    config: MainConfig,
    cs: &ConstraintSystem,
    w: &Witness,
    before: &Witness,
    circuit: &MyCircuit,
    expected_hash: Fr,
    hasher: &F,
    code: Seq<nat>,
    input: Seq<nat>,
    bits: u64,
    n: nat,
)
    requires
        is_circuit(config, cs),
        numbered(config, cs, circuit.range),
        filled(config, w, before, circuit, expected_hash, hasher),
        honest(circuit, code, input, bits, n),
        deterministic(hasher),
        binds(circuit.matrix.program@, circuit.matrix.input_matrix@, hasher, expected_hash),
    ensures
        w.satisfies(cs),
{
    reveal(filled);
    reveal(numbered);
    let digest = choose|hash: Fr| #[trigger]
        binds(circuit.matrix.program@, circuit.matrix.input_matrix@, hasher, hash) && w.advice_at(
            config.hash.index as int,
            0,
        ) == hash@;
    lemma_binds_once(
        circuit.matrix.program@,
        circuit.matrix.input_matrix@,
        hasher,
        digest,
        expected_hash,
    );
    assert(is_loaded(config, w, before, &circuit.matrix)) by {
        reveal(is_loaded);
    }
    assert(is_honest(config, &circuit.matrix, code, input, bits, n)) by {
        reveal(is_honest);
    }
    lemma_complete(config, cs, w, before, &circuit.matrix, code, input, bits, n);
}

/// An assignment that holds the trace and satisfies the circuit shows
/// that the trace passed what `checked` lists.
proof fn lemma_checked<F: Fn([Fr; 2]) -> Result<Fr, Error>>(
    config: MainConfig,
    cs: &ConstraintSystem,
    w: &Witness,
    before: &Witness,
    circuit: &MyCircuit,
    expected_hash: Fr,
    rows: usize,
    challenges: Seq<Fr>,
    mem_prp_init: Fr,
    inst_prp_init: Fr,
    hasher: &F,
)
    requires
        holds_trace(
            config,
            cs,
            w,
            before,
            circuit,
            expected_hash,
            rows,
            challenges,
            mem_prp_init,
            inst_prp_init,
            hasher,
        ),
        w.satisfies(cs),
    ensures
        checked(circuit, expected_hash, challenges, mem_prp_init, inst_prp_init, hasher),
{
    reveal(filled);
    reveal(numbered);
    let matrix = &circuit.matrix;
    lemma_hash_is_public(config, cs, w, matrix);
    let digest = choose|hash: Fr| #[trigger]
        binds(matrix.program@, matrix.input_matrix@, hasher, hash) && w.advice_at(
            config.hash.index as int,
            0,
        ) == hash@;
    digest.lemma_view_injective(expected_hash);
    assert forall|j: int| 0 <= j < matrix.processor_matrix@.len() implies (
    #[trigger] matrix.processor_matrix@[j]).memory_value@ % fr_modulus() < circuit.range by {
        lemma_value_in_range(config, cs, before, w, matrix, j);
    }
    lemma_accumulators_agree(config, cs, before, w, matrix);
    assert(config.challenges.challenges@[0].index == 0);
    assert(config.challenges.challenges@[1].index == 1);
    assert(config.challenges.challenges@[2].index == 2);
    assert(config.challenges.challenges@[3].index == 3);
    assert(config.challenges.challenges@[4].index == 4);
    assert(config.challenges.challenges@[5].index == 5);
    assert(config.challenges.challenges@[6].index == 6);
    assert(config.challenges.challenges@[7].index == 7);
    assert(config.challenges.challenges@[8].index == 8);
    assert(config.challenges.challenges@[9].index == 9);
    assert(config.challenges.challenges@[10].index == 10);
}

/// The circuit for memory values below `range`, with the two seeds of the
/// running products.
pub fn build(range: usize, mem_prp_init: Fr, inst_prp_init: Fr) -> (r: (ConstraintSystem, MainConfig))
    requires
        range > 0,
    ensures
        is_circuit(r.1, &r.0),
        numbered(r.1, &r.0, range),
        r.1.well_formed(),
        r.1.challenges.mem_prp_init == mem_prp_init,
        r.1.challenges.inst_prp_init == inst_prp_init,
{
    let mut cs = ConstraintSystem::default();
    let config = MainConfig::configure(&mut cs, range, mem_prp_init, inst_prp_init);
    proof {
        reveal(is_circuit);
        reveal(numbered);
        assert forall|k: int| 0 <= k < 27 implies (#[trigger] cs.gates@[k]).polys@.len() == 1 by {
            assert(cs.gates@[0 + k].polys@.len() == 1);
        }
        assert forall|k: int, env: crate::plonk::expression::Env| 0 <= k < 27 implies #[trigger]
            cs.gates@[k].polys@[0].value(env) == config.gate(k, env) by {
            assert(cs.gates@[0 + k].polys@[0].value(env) == config.gate(k, env));
        }
    }
    (cs, config)
}

/// Loads the trace of `circuit` into a blank assignment of `rows` rows for
/// `cs` and sets the public hash to `expected_hash`. The trace of an
/// honest execution is loaded whenever the assignment has room and the
/// hasher gives a hash for every pair.
fn fill<F: Fn([Fr; 2]) -> Result<Fr, Error>>(
    config: MainConfig,
    cs: &ConstraintSystem,
    circuit: &MyCircuit,
    expected_hash: Fr,
    rows: usize,
    challenges: Vec<Fr>,
    hasher: &F,
) -> (r: Result<(Witness, Ghost<Witness>), Error>)
    requires
        numbered(config, cs, circuit.range),
        rows > 0,
        circuit.matrix.program@.len() > 0,
        forall|pair: [Fr; 2]| #[trigger] hasher.requires((pair,)),
    ensures
        r matches Ok(w) ==> w.0.well_formed() && w.0.rows == rows && w.1@.rows == rows
            && w.1@.challenges@ == challenges@ && filled(
            config,
            &w.0,
            &w.1@,
            circuit,
            expected_hash,
            hasher,
        ),
        forall|code: Seq<nat>, input: Seq<nat>, bits: u64, n: nat| #[trigger]
            honest(circuit, code, input, bits, n) && has_room(
                circuit,
                rows,
                challenges@.len() as int,
            ) && always_hashes(hasher) ==> r.is_ok(),
{
    proof {
        reveal(numbered);
    }
    let ghost given = challenges@.len() as int;
    let mut witness = Witness::new(cs, rows, challenges);
    let ghost before = witness;
    let loaded = config.load_table(&mut witness, &circuit.matrix, hasher);
    let ghost after = witness;
    proof {
        assert forall|code: Seq<nat>, input: Seq<nat>, bits: u64, n: nat| #[trigger]
            honest(circuit, code, input, bits, n) && has_room(circuit, rows, given)
                && always_hashes(hasher) implies loaded.is_ok() by {
            lemma_fits(config, cs, circuit, &before, code, input, bits, n);
        }
    }
    match loaded {
        Err(e) => {
            return Err(e);
        },
        Ok(()) => {},
    }
    let set = witness.assign_instance(config.expected_hash, 0, expected_hash);
    assert(set.is_ok());
    proof {
        reveal(filled);
        config.lemma_shows_same(&after, &witness, &before, &circuit.matrix);
        let digest = choose|hash: Fr| #[trigger]
            binds(circuit.matrix.program@, circuit.matrix.input_matrix@, hasher, hash)
                && after.advice_at(config.hash.index as int, 0) == hash@;
        assert(binds(circuit.matrix.program@, circuit.matrix.input_matrix@, hasher, digest)
            && witness.advice_at(config.hash.index as int, 0) == digest@);
    }
    Ok((witness, Ghost(before)))
}

/// Builds the circuit for `circuit`, loads its trace into a blank
/// assignment of `rows` rows with the given challenges and seeds, sets the
/// public hash to `expected_hash`, and checks the assignment against the
/// circuit.
///
/// The trace of an honest execution is accepted, whatever the challenges
/// and the seeds: where the matrix is the trace of an execution that halts
/// at the end of its program, the assignment has room, the hasher gives
/// one hash for every pair, and `expected_hash` binds the program and what
/// the program read, the result is `Ok`.
///
/// A trace is accepted only where the assignment that holds it satisfies
/// the circuit, and then the public hash binds the program and what it
/// read, the memory values are in range and the tables agree on their
/// final accumulators. A trace that could be loaded and is not accepted
/// fails a constraint.
pub fn prove_and_verify<F: Fn([Fr; 2]) -> Result<Fr, Error>>(
    circuit: &MyCircuit,
    expected_hash: Fr,
    rows: usize,
    challenges: Vec<Fr>,
    mem_prp_init: Fr,
    inst_prp_init: Fr,
    hasher: &F,
) -> (r: Result<(), Failure>)
    requires
        circuit.range > 0,
        rows > 0,
        circuit.matrix.program@.len() > 0,
        forall|pair: [Fr; 2]| #[trigger] hasher.requires((pair,)),
    ensures
        forall|code: Seq<nat>, input: Seq<nat>, bits: u64, n: nat| #[trigger]
            honest(circuit, code, input, bits, n) && has_room(
                circuit,
                rows,
                challenges@.len() as int,
            ) && always_hashes(hasher) && deterministic(hasher) && binds(
                circuit.matrix.program@,
                circuit.matrix.input_matrix@,
                hasher,
                expected_hash,
            ) ==> r.is_ok(),
        r.is_ok() ==> checked(circuit, expected_hash, challenges@, mem_prp_init, inst_prp_init, hasher),
        r.is_ok() ==> exists|config: MainConfig, cs: ConstraintSystem, w: Witness, before: Witness|
            #[trigger] holds_trace(
                config,
                &cs,
                &w,
                &before,
                circuit,
                expected_hash,
                rows,
                challenges@,
                mem_prp_init,
                inst_prp_init,
                hasher,
            ) && w.satisfies(&cs),
        r matches Err(Failure::Verify(_)) ==> exists|
            config: MainConfig,
            cs: ConstraintSystem,
            w: Witness,
            before: Witness,
        |
            #[trigger] holds_trace(
                config,
                &cs,
                &w,
                &before,
                circuit,
                expected_hash,
                rows,
                challenges@,
                mem_prp_init,
                inst_prp_init,
                hasher,
            ) && !w.satisfies(&cs),
{
    let ghost given = challenges@;
    let (cs, config) = build(circuit.range, mem_prp_init, inst_prp_init);
    let (witness, before) = match fill(config, &cs, circuit, expected_hash, rows, challenges, hasher) {
        Ok(w) => w,
        Err(e) => {
            return Err(Failure::Load(e));
        },
    };
    let outcome = witness.verify(&cs);
    proof {
        assert forall|code: Seq<nat>, input: Seq<nat>, bits: u64, n: nat| #[trigger]
            honest(circuit, code, input, bits, n) && deterministic(hasher) && binds(
                circuit.matrix.program@,
                circuit.matrix.input_matrix@,
                hasher,
                expected_hash,
            ) implies outcome.is_ok() by {
            lemma_accepted(
                config,
                &cs,
                &witness,
                &before@,
                circuit,
                expected_hash,
                hasher,
                code,
                input,
                bits,
                n,
            );
        }
    }
    proof {
        assert(holds_trace(
            config,
            &cs,
            &witness,
            &before@,
            circuit,
            expected_hash,
            rows,
            given,
            mem_prp_init,
            inst_prp_init,
            hasher,
        ));
        if outcome.is_ok() {
            lemma_checked(
                config,
                &cs,
                &witness,
                &before@,
                circuit,
                expected_hash,
                rows,
                given,
                mem_prp_init,
                inst_prp_init,
                hasher,
            );
        }
    }
    match outcome {
        Ok(()) => Ok(()),
        Err(failure) => Err(Failure::Verify(failure)),
    }
}

} // verus!
