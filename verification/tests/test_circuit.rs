use ckb_bf_zkvm::bn256::fr::Fr;
use ckb_bf_zkvm::code;
use ckb_bf_zkvm::interpreter::{Interpreter, Status};
use ckb_bf_zkvm::main_config::{MainConfig, MyCircuit};
use ckb_bf_zkvm::plonk::constraint_system::ConstraintSystem;
use ckb_bf_zkvm::plonk::witness::{Error, VerifyFailure, Witness};
use ckb_bf_zkvm::poseidon_hash::hash_program;
use rand::RngCore;
use rand::SeedableRng;
use rand_xorshift::XorShiftRng;

const SEED: [u8; 16] = [
    0x59, 0x62, 0xbe, 0x5d, 0x76, 0x3d, 0x31, 0x8d, 0x17, 0xdb, 0x37, 0x32, 0x54, 0x06, 0xbc, 0xe5,
];

fn f(x: u64) -> Fr {
    Fr::from_u64(x)
}

fn random_fr(rng: &mut XorShiftRng) -> Fr {
    loop {
        let hi = (((rng.next_u64() as u128) << 64) | rng.next_u64() as u128) >> 2;
        let lo = ((rng.next_u64() as u128) << 64) | rng.next_u64() as u128;
        if let Some(x) = Fr::from_halves(hi, lo) {
            return x;
        }
    }
}

/// A stand-in for the compression function: not symmetric in its two
/// arguments.
fn toy_hasher(pair: [Fr; 2]) -> Result<Fr, Error> {
    Ok(pair[0].square().mul(&pair[1]).add(&pair[0].mul(&f(5))).add(&pair[1].mul(&f(3))).add(&f(7)))
}

fn run_program(program: &str, input: &[u64]) -> Interpreter {
    let mut vm = Interpreter::new();
    vm.set_code(code::compile(program.as_bytes().to_vec()));
    vm.set_input(input.iter().map(|&x| f(x)).collect());
    assert_eq!(vm.run(100_000), Status::Halted);
    vm
}

struct Loaded {
    cs: ConstraintSystem,
    config: MainConfig,
    witness: Witness,
}

fn load(vm: &Interpreter, input: &[u64], rows: usize, rng: &mut XorShiftRng) -> Loaded {
    let mut cs = ConstraintSystem::default();
    let config = MainConfig::configure(&mut cs, 256, random_fr(rng), random_fr(rng));
    let challenges: Vec<Fr> = (0..cs.num_challenges).map(|_| random_fr(rng)).collect();
    let mut witness = Witness::new(&cs, rows, challenges);
    config.load_table(&mut witness, &vm.matrix, &toy_hasher).unwrap();
    let expected =
        hash_program(vm.code.clone(), input.iter().map(|&x| f(x)).collect(), &toy_hasher).unwrap();
    witness.assign_instance(config.expected_hash, 0, expected).unwrap();
    Loaded { cs, config, witness }
}

#[test]
fn configure_creates_the_columns_and_gates() {
    let mut cs = ConstraintSystem::default();
    let config = MainConfig::configure(&mut cs, 256, f(3), f(9));
    assert_eq!(cs.num_advice_columns, 30);
    assert_eq!(cs.num_fixed_columns, 1);
    assert_eq!(cs.num_instance_columns, 1);
    assert_eq!(cs.num_selectors, 15);
    assert_eq!(cs.num_challenges, 11);
    assert_eq!(cs.gates.len(), 27);
    assert_eq!(cs.lookups.len(), 1);
    assert_eq!(cs.gates[0].name, "B0: clk_0 = 0");
    assert_eq!(cs.gates[16].name, "Memory prp should have valid transition");
    assert_eq!(config.p_config.clk.index, 0);
    assert_eq!(config.m_config.clk.index, 11);
    assert_eq!(config.hash.index, 29);
    assert_eq!(config.challenges.mem_prp_init, f(3));
    assert_eq!(config.challenges.inst_prp_init, f(9));
    assert_eq!(cs.max_phase(), 1);
}

#[test]
fn trace_of_two_increments_satisfies_the_circuit() {
    let mut rng = XorShiftRng::from_seed(SEED);
    let vm = run_program("++", &[]);
    assert_eq!(vm.matrix.processor_matrix.len(), 3);
    assert_eq!(vm.register.memory_value, f(2));
    let loaded = load(&vm, &[], 512, &mut rng);
    // no `.` was executed: the output running sum stays at its initial zero
    let output_rs = loaded.config.p_config.output_rs.index;
    for row in 0..4 {
        assert_eq!(loaded.witness.advice[output_rs][row], f(0));
    }
    assert_eq!(loaded.witness.verify(&loaded.cs), Ok(()));
}

#[test]
fn trace_with_loop_input_and_output_satisfies_the_circuit() {
    let mut rng = XorShiftRng::from_seed(SEED);
    let vm = run_program("++>,<[>+.<-]", &[97]);
    let loaded = load(&vm, &[97], 512, &mut rng);
    assert_eq!(loaded.witness.verify(&loaded.cs), Ok(()));
}

#[test]
fn trace_with_wrapping_satisfies_the_circuit() {
    let mut rng = XorShiftRng::from_seed(SEED);
    let vm = run_program("-+>-<", &[]);
    let loaded = load(&vm, &[], 512, &mut rng);
    assert_eq!(loaded.witness.verify(&loaded.cs), Ok(()));
}

#[test]
fn final_accumulators_agree_for_random_challenges() {
    let mut rng = XorShiftRng::from_seed(SEED);
    let vm = run_program("++>,<[>+.<-],.", &[5, 6]);
    for _ in 0..3 {
        let loaded = load(&vm, &[5, 6], 256, &mut rng);
        let c = &loaded.config;
        let w = &loaded.witness;
        let m = &vm.matrix;
        let p = m.processor_matrix.len();
        assert_eq!(
            w.advice[c.p_config.mem_prp.index][p],
            w.advice[c.m_config.prp.index][m.memory_matrix.len()]
        );
        assert_eq!(
            w.advice[c.p_config.inst_prp.index][p],
            w.advice[c.i_config.prp.index][m.instruction_matrix.len()]
        );
        assert_eq!(
            w.advice[c.p_config.output_rs.index][p],
            w.advice[c.output_config.rs.index][m.output_matrix.len()]
        );
        assert_eq!(
            w.advice[c.p_config.input_rs.index][p],
            w.advice[c.input_config.rs.index][m.input_matrix.len()]
        );
        assert_eq!(
            w.advice[c.i_config.rs.index][m.instruction_matrix.len()],
            w.advice[c.program_config.code_rs.index][m.program.len()]
        );
        assert_eq!(w.copies.len(), 6);
    }
}

#[test]
fn running_sum_is_the_polynomial_in_the_challenge() {
    let mut rng = XorShiftRng::from_seed(SEED);
    let vm = run_program("+.+.+.", &[]);
    let loaded = load(&vm, &[], 256, &mut rng);
    let gamma = loaded.witness.challenges[loaded.config.challenges.challenges[9].index];
    // outputs 1, 2, 3: ((1 * gamma) + 2) * gamma + 3
    let expect = f(1).mul(&gamma).add(&f(2)).mul(&gamma).add(&f(3));
    let rs = loaded.config.output_config.rs.index;
    assert_eq!(loaded.witness.advice[rs][3], expect);
    assert_eq!(loaded.witness.advice[rs][0], f(0));
    assert_eq!(loaded.witness.advice[rs][1], f(1));
}

#[test]
fn memory_value_out_of_range_is_rejected() {
    let mut rng = XorShiftRng::from_seed(SEED);
    let mut vm = run_program("+", &[]);
    // a malformed witness: the cell holds the range itself
    let bad = f(256);
    let last = vm.matrix.processor_matrix.len() - 1;
    vm.matrix.processor_matrix[last].memory_value = bad;
    vm.matrix.processor_matrix[last].memory_value_inverse = bad.invert().unwrap();
    for row in vm.matrix.memory_matrix.iter_mut() {
        if row.cycle == f(1) {
            row.memory_value = bad;
        }
    }
    let loaded = load(&vm, &[], 512, &mut rng);
    let result = loaded.witness.verify(&loaded.cs);
    assert!(result.is_err());
    // the increment from 0 to 256 is no step of one, and 256 is not in the table
    assert_eq!(result, Err(VerifyFailure::ConstraintNotSatisfied { gate: 9, poly: 0, row: 0 }));
}

#[test]
fn range_check_alone_rejects_the_range() {
    let mut rng = XorShiftRng::from_seed(SEED);
    // `,` may store any value: only the lookup keeps it below the range
    let vm = run_program(",", &[256]);
    let loaded = load(&vm, &[256], 512, &mut rng);
    assert_eq!(loaded.witness.verify(&loaded.cs), Err(VerifyFailure::Lookup { lookup: 0, row: 1 }));
    let vm = run_program(",", &[255]);
    let loaded = load(&vm, &[255], 512, &mut rng);
    assert_eq!(loaded.witness.verify(&loaded.cs), Ok(()));
}

#[test]
fn wrong_public_hash_is_rejected() {
    let mut rng = XorShiftRng::from_seed(SEED);
    let vm = run_program("++", &[]);
    let mut loaded = load(&vm, &[], 512, &mut rng);
    loaded.witness.assign_instance(loaded.config.expected_hash, 0, f(1)).unwrap();
    assert_eq!(loaded.witness.verify(&loaded.cs), Err(VerifyFailure::Permutation { copy: 0 }));
}

#[test]
fn tampered_output_is_rejected() {
    let mut rng = XorShiftRng::from_seed(SEED);
    let mut vm = run_program("+.", &[]);
    vm.matrix.output_matrix[0] = f(2);
    let loaded = load(&vm, &[], 512, &mut rng);
    assert_eq!(loaded.witness.verify(&loaded.cs), Err(VerifyFailure::Permutation { copy: 2 }));
}

#[test]
fn tampered_memory_row_is_rejected() {
    let mut rng = XorShiftRng::from_seed(SEED);
    let mut vm = run_program("+>+", &[]);
    vm.matrix.memory_matrix[1].memory_value = f(7);
    let loaded = load(&vm, &[], 512, &mut rng);
    assert!(loaded.witness.verify(&loaded.cs).is_err());
}

#[test]
fn loading_needs_enough_rows() {
    let mut rng = XorShiftRng::from_seed(SEED);
    let vm = run_program("++", &[]);
    let mut cs = ConstraintSystem::default();
    let config = MainConfig::configure(&mut cs, 256, f(3), f(9));
    let challenges: Vec<Fr> = (0..cs.num_challenges).map(|_| random_fr(&mut rng)).collect();
    // the lookup table alone needs 256 rows
    let mut witness = Witness::new(&cs, 255, challenges.clone());
    assert_eq!(
        config.load_table(&mut witness, &vm.matrix, &toy_hasher),
        Err(Error::BoundsFailure)
    );
    let mut witness = Witness::new(&cs, 256, challenges[..5].to_vec());
    assert_eq!(
        config.load_table(&mut witness, &vm.matrix, &toy_hasher),
        Err(Error::UnknownChallenge)
    );
    let mut witness = Witness::new(&cs, 256, challenges);
    assert_eq!(config.load_table(&mut witness, &vm.matrix, &toy_hasher), Ok(()));
}

#[test]
fn dangling_input_instruction_is_an_incomplete_trace() {
    let mut rng = XorShiftRng::from_seed(SEED);
    let mut vm = Interpreter::new();
    vm.set_code(code::compile(",".as_bytes().to_vec()));
    assert_eq!(vm.run(100), Status::NeedsInput);
    let mut cs = ConstraintSystem::default();
    let config = MainConfig::configure(&mut cs, 256, f(3), f(9));
    let challenges: Vec<Fr> = (0..cs.num_challenges).map(|_| random_fr(&mut rng)).collect();
    let mut witness = Witness::new(&cs, 256, challenges);
    assert_eq!(
        config.load_table(&mut witness, &vm.matrix, &toy_hasher),
        Err(Error::IncompleteTrace)
    );
}

#[test]
fn circuit_synthesizes_its_matrix() {
    let mut rng = XorShiftRng::from_seed(SEED);
    let vm = run_program("+.", &[]);
    let code = vm.code.clone();
    let circuit = MyCircuit::new(vm.matrix);
    assert_eq!(circuit.range, 256);
    let mut cs = ConstraintSystem::default();
    let config = circuit.configure(&mut cs, f(3), f(9));
    let challenges: Vec<Fr> = (0..cs.num_challenges).map(|_| random_fr(&mut rng)).collect();
    let mut witness = Witness::new(&cs, 256, challenges);
    circuit.synthesize(config, &mut witness, &toy_hasher).unwrap();
    let expected = hash_program(code, Vec::new(), &toy_hasher).unwrap();
    witness.assign_instance(config.expected_hash, 0, expected).unwrap();
    assert_eq!(witness.verify(&cs), Ok(()));
    let empty = circuit.without_witnesses();
    assert!(empty.matrix.processor_matrix.is_empty());
    assert_eq!(empty.range, 256);
}

#[test]
fn synthesize_fails_only_for_want_of_room_or_of_a_hash() {
    let mut rng = XorShiftRng::from_seed(SEED);
    let vm = run_program(",+.", &[7]);
    let code = vm.code.clone();
    let circuit = MyCircuit::new(vm.matrix);
    let mut cs = ConstraintSystem::default();
    let config = circuit.configure(&mut cs, f(3), f(9));
    let challenges: Vec<Fr> = (0..cs.num_challenges).map(|_| random_fr(&mut rng)).collect();

    let mut small = Witness::new(&cs, 255, challenges.clone());
    assert_eq!(circuit.synthesize(config, &mut small, &toy_hasher), Err(Error::BoundsFailure));

    let failing = |_pair: [Fr; 2]| -> Result<Fr, Error> { Err(Error::IncompleteTrace) };
    let mut unhashed = Witness::new(&cs, 256, challenges.clone());
    assert_eq!(circuit.synthesize(config, &mut unhashed, &failing), Err(Error::IncompleteTrace));

    let mut witness = Witness::new(&cs, 256, challenges.clone());
    assert_eq!(circuit.synthesize(config, &mut witness, &toy_hasher), Ok(()));
    let expected = hash_program(code, vec![f(7)], &toy_hasher).unwrap();
    assert_eq!(witness.advice[config.hash.index][0], expected);
    assert_eq!(witness.copies.len(), 6);
    assert_eq!(witness.challenges, challenges);
    assert_eq!(witness.rows, 256);
}
