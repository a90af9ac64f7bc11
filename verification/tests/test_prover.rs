use ckb_bf_zkvm::bn256::fr::Fr;
use ckb_bf_zkvm::code;
use ckb_bf_zkvm::interpreter::{Interpreter, Status};
use ckb_bf_zkvm::main_config::MyCircuit;
use ckb_bf_zkvm::plonk::witness::{Error, VerifyFailure};
use ckb_bf_zkvm::poseidon_hash::hash_program;
use ckb_bf_zkvm::prover::{build, prove_and_verify, Failure};
use rand::RngCore;
use rand::SeedableRng;
use rand_xorshift::XorShiftRng;

const SEED: [u8; 16] = [
    0x59, 0x62, 0xbe, 0x5d, 0x76, 0x3d, 0x31, 0x8d, 0x17, 0xdb, 0x37, 0x32, 0x54, 0x06, 0xbc, 0xe5,
];

fn f(x: u64) -> Fr {
    Fr::from_u64(x)
}

fn random_fr(rng: &mut XorShiftRng) -> Fr {
    loop {
        let hi = (((rng.next_u64() as u128) << 64) | rng.next_u64() as u128) >> 2;
        let lo = ((rng.next_u64() as u128) << 64) | rng.next_u64() as u128;
        if let Some(x) = Fr::from_halves(hi, lo) {
            return x;
        }
    }
}

/// A stand-in for the compression function: not symmetric in its two
/// arguments.
fn toy_hasher(pair: [Fr; 2]) -> Result<Fr, Error> {
    Ok(pair[0].square().mul(&pair[1]).add(&pair[0].mul(&f(5))).add(&pair[1].mul(&f(3))).add(&f(7)))
}

fn trace(program: &str, input: &[u64], bits: u64) -> (MyCircuit, Fr) {
    let mut vm = Interpreter::new();
    vm.set_code(code::compile(program.as_bytes().to_vec()));
    vm.set_input(input.iter().map(|&x| f(x)).collect());
    vm.set_bits(bits);
    assert_eq!(vm.run(100_000), Status::Halted);
    let expected =
        hash_program(vm.code.clone(), input.iter().map(|&x| f(x)).collect(), &toy_hasher).unwrap();
    (MyCircuit::with_range(vm.matrix, 1 << bits), expected)
}

fn accept(circuit: &MyCircuit, expected: Fr, rows: usize, rng: &mut XorShiftRng) -> Result<(), Failure> {
    let challenges: Vec<Fr> = (0..11).map(|_| random_fr(rng)).collect();
    prove_and_verify(circuit, expected, rows, challenges, random_fr(rng), random_fr(rng), &toy_hasher)
}

#[test]
fn honest_traces_are_accepted() {
    let mut rng = XorShiftRng::from_seed(SEED);
    for (program, input) in [
        ("+", vec![]),
        ("++", vec![]),
        ("-", vec![]),
        ("><", vec![]),
        ("+>+<->-<", vec![]),
        (",.,.", vec![3, 4]),
        ("++>,<[>+.<-]", vec![97]),
        ("+[-]>[+]", vec![]),
        ("+++[>++<-]>.", vec![]),
    ] {
        let (circuit, expected) = trace(program, &input, 8);
        assert_eq!(accept(&circuit, expected, 512, &mut rng), Ok(()), "{}", program);
    }
}

#[test]
fn narrow_memory_values_wrap_within_their_range() {
    let mut rng = XorShiftRng::from_seed(SEED);
    // four bits: sixteen increments come back to zero
    let program: String = std::iter::repeat('+').take(16).collect();
    let (circuit, expected) = trace(&program, &[], 4);
    assert_eq!(circuit.range, 16);
    assert_eq!(circuit.matrix.processor_matrix.last().unwrap().memory_value, f(0));
    assert_eq!(accept(&circuit, expected, 64, &mut rng), Ok(()));
    let (circuit, expected) = trace("-+", &[], 4);
    assert_eq!(circuit.matrix.processor_matrix[1].memory_value, f(15));
    assert_eq!(accept(&circuit, expected, 64, &mut rng), Ok(()));
}

#[test]
fn a_trace_for_another_range_is_rejected() {
    let mut rng = XorShiftRng::from_seed(SEED);
    // the machine wrapped at sixteen, the circuit checks for two hundred and fifty-six
    let (circuit, expected) = trace("-", &[], 4);
    let circuit = MyCircuit::with_range(circuit.matrix, 256);
    assert_eq!(
        accept(&circuit, expected, 512, &mut rng),
        Err(Failure::Verify(VerifyFailure::ConstraintNotSatisfied { gate: 9, poly: 0, row: 0 }))
    );
}

#[test]
fn too_few_rows_fail_to_load() {
    let mut rng = XorShiftRng::from_seed(SEED);
    let (circuit, expected) = trace("++", &[], 8);
    assert_eq!(accept(&circuit, expected, 100, &mut rng), Err(Failure::Load(Error::BoundsFailure)));
    let challenges: Vec<Fr> = (0..10).map(|_| random_fr(&mut rng)).collect();
    assert_eq!(
        prove_and_verify(&circuit, expected, 512, challenges, f(3), f(9), &toy_hasher),
        Err(Failure::Load(Error::UnknownChallenge))
    );
}

#[test]
fn unread_input_is_not_bound() {
    let mut rng = XorShiftRng::from_seed(SEED);
    // the program reads one of two inputs: the public hash of both does not
    // bind what the trace read
    let (circuit, expected) = trace(",", &[3, 4], 8);
    assert_eq!(
        accept(&circuit, expected, 512, &mut rng),
        Err(Failure::Verify(VerifyFailure::Permutation { copy: 0 }))
    );
}

#[test]
fn failing_hasher_fails_the_load() {
    let failing = |_pair: [Fr; 2]| -> Result<Fr, Error> { Err(Error::IncompleteTrace) };
    let (circuit, expected) = trace("++", &[], 8);
    assert_eq!(
        prove_and_verify(&circuit, expected, 512, vec![f(1); 11], f(3), f(9), &failing),
        Err(Failure::Load(Error::IncompleteTrace))
    );
}

#[test]
fn build_numbers_the_circuit_from_zero() {
    let (cs, config) = build(256, f(3), f(9));
    assert_eq!(cs.gates.len(), 27);
    assert_eq!(cs.num_advice_columns, 30);
    assert_eq!(config.p_config.clk.index, 0);
    assert_eq!(config.expected_hash.index, 0);
    assert_eq!(config.p_config.lookup_table.range, 256);
    for k in 0..11 {
        assert_eq!(config.challenges.challenges[k].index, k);
    }
}

#[test]
fn test_prove_hello_world() {
    let mut rng = XorShiftRng::from_seed(SEED);
    let program = "++++++++[>++++[>++>+++>+++>+<<<<-]>+>+>->>+[<]<-]>>.>---.+++++++..+++.>>.<-.<.+++.------.--------.>>+.>++.";
    let (circuit, expected) = trace(program, &[], 8);
    let written: Vec<u8> =
        circuit.matrix.output_matrix.iter().map(|x| x.get_lower_128() as u8).collect();
    assert_eq!(written, b"Hello World!\n".to_vec());
    assert_eq!(circuit.matrix.processor_matrix.len(), 907);
    assert_eq!(accept(&circuit, expected, 1 << 11, &mut rng), Ok(()));
}

#[test]
fn test_prove_neptune() {
    let mut rng = XorShiftRng::from_seed(SEED);
    let input: Vec<u64> = code::easygen("a").iter().map(|x| x.to_u64().unwrap()).collect();
    let (circuit, expected) = trace("++>,<[>+.<-]", &input, 8);
    assert_eq!(circuit.matrix.output_matrix, vec![f(98), f(99)]);
    assert_eq!(accept(&circuit, expected, 1 << 10, &mut rng), Ok(()));
}

#[test]
fn test_prove_wrapping() {
    let mut rng = XorShiftRng::from_seed(SEED);
    let (circuit, expected) = trace("-.+.+.", &[], 8);
    assert_eq!(circuit.matrix.output_matrix, vec![f(255), f(0), f(1)]);
    assert_eq!(accept(&circuit, expected, 1 << 10, &mut rng), Ok(()));
}
