use ckb_bf_zkvm::bn256::fr::Fr;
use ckb_bf_zkvm::plonk::witness::Error;
use ckb_bf_zkvm::poseidon_hash::{hash_program, poseidon_hash};
use ckb_bf_zkvm::utils::NIL_HASH_MSG;

fn f(x: u64) -> Fr {
    Fr::from_u64(x)
}

/// A stand-in for the compression function: not symmetric in its two
/// arguments.
fn toy_hasher(pair: [Fr; 2]) -> Result<Fr, Error> {
    Ok(pair[0].square().mul(&pair[1]).add(&pair[0].mul(&f(5))).add(&pair[1].mul(&f(3))).add(&f(7)))
}

fn h(a: Fr, b: Fr) -> Fr {
    toy_hasher([a, b]).unwrap()
}

fn list(xs: &[u64]) -> Vec<Fr> {
    xs.iter().map(|&x| f(x)).collect()
}

#[test]
fn single_element_is_its_own_hash() {
    assert_eq!(poseidon_hash(list(&[42]), &toy_hasher), Ok(f(42)));
}

#[test]
fn pair_is_hashed_once() {
    assert_eq!(poseidon_hash(list(&[1, 2]), &toy_hasher), Ok(h(f(1), f(2))));
    // 1 * 1 * 2 + 1 * 5 + 2 * 3 + 7
    assert_eq!(poseidon_hash(list(&[1, 2]), &toy_hasher), Ok(f(20)));
}

#[test]
fn four_elements_make_a_tree() {
    let expect = h(h(f(1), f(2)), h(f(3), f(4)));
    assert_eq!(poseidon_hash(list(&[1, 2, 3, 4]), &toy_hasher), Ok(expect));
}

#[test]
fn odd_last_element_is_carried_to_the_front() {
    // [1, 2, 3] -> [3, h(1, 2)] -> h(3, h(1, 2))
    let expect = h(f(3), h(f(1), f(2)));
    assert_eq!(poseidon_hash(list(&[1, 2, 3]), &toy_hasher), Ok(expect));
    // [1, 2, 3, 4, 5] -> [5, h(1, 2), h(3, 4)] -> [h(3, 4), h(5, h(1, 2))] -> ..
    let expect = h(h(f(3), f(4)), h(f(5), h(f(1), f(2))));
    assert_eq!(poseidon_hash(list(&[1, 2, 3, 4, 5]), &toy_hasher), Ok(expect));
}

#[test]
fn reduction_is_repeatable() {
    let a = hash_program(list(&[43, 43, 46]), list(&[1, 2]), &toy_hasher);
    let b = hash_program(list(&[43, 43, 46]), list(&[1, 2]), &toy_hasher);
    assert_eq!(a, b);
    assert!(a.is_ok());
}

#[test]
fn swapping_within_a_pair_changes_the_hash() {
    let a = poseidon_hash(list(&[1, 2, 3, 4]), &toy_hasher);
    let b = poseidon_hash(list(&[2, 1, 3, 4]), &toy_hasher);
    assert_ne!(a, b);
    let a = hash_program(list(&[43, 45]), list(&[1, 2]), &toy_hasher);
    let b = hash_program(list(&[45, 43]), list(&[1, 2]), &toy_hasher);
    assert_ne!(a, b);
}

#[test]
fn program_hash_combines_both_hashes() {
    let program = list(&[43, 43, 46]);
    let input = list(&[9, 8]);
    let program_hash = poseidon_hash(program.clone(), &toy_hasher).unwrap();
    let input_hash = poseidon_hash(input.clone(), &toy_hasher).unwrap();
    assert_eq!(hash_program(program, input, &toy_hasher), Ok(h(program_hash, input_hash)));
}

#[test]
fn empty_input_hashes_the_sentinel() {
    let program = list(&[43, 43]);
    let expect = h(h(f(43), f(43)), f(NIL_HASH_MSG));
    assert_eq!(hash_program(program.clone(), Vec::new(), &toy_hasher), Ok(expect));
    // the stand-in for no input: an input of the sentinel alone hashes the same
    assert_eq!(
        hash_program(program.clone(), Vec::new(), &toy_hasher),
        hash_program(program, list(&[NIL_HASH_MSG]), &toy_hasher)
    );
}

#[test]
fn first_failure_of_the_hasher_ends_the_reduction() {
    let failing = |pair: [Fr; 2]| -> Result<Fr, Error> {
        if pair[0] == f(3) {
            Err(Error::BoundsFailure)
        } else if pair[0] == f(5) {
            Err(Error::UnknownChallenge)
        } else {
            toy_hasher(pair)
        }
    };
    assert_eq!(poseidon_hash(list(&[1, 2, 3, 4, 5, 6]), &failing), Err(Error::BoundsFailure));
    assert_eq!(poseidon_hash(list(&[1, 2, 5, 4, 3, 6]), &failing), Err(Error::UnknownChallenge));
    assert_eq!(poseidon_hash(list(&[1, 2]), &failing), Ok(h(f(1), f(2))));
}
