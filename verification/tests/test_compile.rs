use ckb_bf_zkvm::bn256::fr::Fr;
use ckb_bf_zkvm::code;

#[test]
fn test_compile_neptune() {
    let output = code::compile("++>,<[>+.<-]".as_bytes().to_vec());
    let expect: Vec<Fr> = vec![
        '+' as u64, '+' as u64, '>' as u64, ',' as u64, '<' as u64, '[' as u64, 14, '>' as u64, '+' as u64, '.' as u64,
        '<' as u64, '-' as u64, ']' as u64, 7,
    ]
    .iter()
    .map(|&x| Fr::from_u64(x))
    .collect();
    assert_eq!(output, expect);
}

#[test]
fn compile_skips_comments() {
    let output = code::compile("a+ b-\n".as_bytes().to_vec());
    assert_eq!(output, vec![Fr::from_u64(0x2B), Fr::from_u64(0x2D)]);
}

#[test]
fn compile_nested_brackets() {
    // [ [ ] ]  ->  [ 8 [ 6 ] 4 ] 2
    let output = code::compile("[[]]".as_bytes().to_vec());
    let expect: Vec<Fr> = [0x5B, 8, 0x5B, 6, 0x5D, 4, 0x5D, 2].iter().map(|&x| Fr::from_u64(x)).collect();
    assert_eq!(output, expect);
}

#[test]
fn balanced_brackets_are_recognised() {
    assert!(code::is_balanced(&"++[>+<-]".as_bytes().to_vec()));
    assert!(code::is_balanced(&Vec::new()));
    assert!(!code::is_balanced(&"]".as_bytes().to_vec()));
    assert!(!code::is_balanced(&"[".as_bytes().to_vec()));
    assert!(!code::is_balanced(&"][".as_bytes().to_vec()));
    assert!(!code::is_balanced(&"[[]".as_bytes().to_vec()));
}

#[test]
fn easygen_keeps_every_byte() {
    let output = code::easygen("+x");
    assert_eq!(output, vec![Fr::from_u64(0x2B), Fr::from_u64(0x78)]);
}
