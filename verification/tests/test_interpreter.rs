use ckb_bf_zkvm::bn256::fr::Fr;
use ckb_bf_zkvm::code;
use ckb_bf_zkvm::interpreter::{Interpreter, Status};

fn run_program(program: &str, input: &[u64], bits: u64, max_cycles: u64) -> (Interpreter, Status) {
    let mut vm = Interpreter::new();
    vm.set_code(code::compile(program.as_bytes().to_vec()));
    vm.set_input(input.iter().map(|&x| Fr::from_u64(x)).collect());
    vm.set_bits(bits);
    let status = vm.run(max_cycles);
    (vm, status)
}

fn f(x: u64) -> Fr {
    Fr::from_u64(x)
}

#[test]
fn two_increments() {
    let (vm, status) = run_program("++", &[], 8, 1000);
    assert_eq!(status, Status::Halted);
    let rows = &vm.matrix.processor_matrix;
    assert_eq!(rows.len(), 3);
    assert_eq!(rows[0].cycle, f(0));
    assert_eq!(rows[0].instruction_pointer, f(0));
    assert_eq!(rows[0].memory_pointer, f(0));
    assert_eq!(rows[0].memory_value, f(0));
    assert_eq!(rows[0].current_instruction, f(0x2B));
    assert_eq!(rows[0].next_instruction, f(0x2B));
    assert_eq!(rows[1].memory_value, f(1));
    assert_eq!(rows[1].next_instruction, f(0));
    assert_eq!(rows[2].memory_value, f(2));
    assert_eq!(rows[2].instruction_pointer, f(2));
    assert_eq!(rows[2].current_instruction, f(0));
    assert_eq!(rows[2].next_instruction, f(0));
    assert_eq!(rows[2].cycle, f(2));
    assert!(vm.matrix.output_matrix.is_empty());
    assert!(vm.matrix.input_matrix.is_empty());
}

#[test]
fn increment_step() {
    let (vm, status) = run_program("+", &[], 8, 1000);
    assert_eq!(status, Status::Halted);
    assert_eq!(vm.matrix.processor_matrix.len(), 2);
    assert_eq!(vm.register.memory_value, f(1));
    assert_eq!(vm.register.instruction_pointer, f(1));
    assert_eq!(vm.register.memory_pointer, f(0));
}

#[test]
fn decrement_wraps_to_range_max() {
    let (vm, status) = run_program("-", &[], 8, 1000);
    assert_eq!(status, Status::Halted);
    assert_eq!(vm.register.memory_value, f(255));
    let (vm, _) = run_program("-", &[], 4, 1000);
    assert_eq!(vm.register.memory_value, f(15));
}

#[test]
fn increment_wraps_at_range() {
    let program: String = std::iter::repeat('+').take(256).collect();
    let (vm, status) = run_program(&program, &[], 8, 10_000);
    assert_eq!(status, Status::Halted);
    assert_eq!(vm.register.memory_value, f(0));
    let rows = &vm.matrix.processor_matrix;
    assert_eq!(rows.len(), 257);
    for (i, row) in rows.iter().enumerate().take(256) {
        assert_eq!(row.memory_value, f(i as u64));
    }
    assert_eq!(rows[255].memory_value, f(255));
    assert_eq!(rows[256].memory_value, f(0));
}

#[test]
fn shift_right_extends_memory() {
    let (vm, status) = run_program(">", &[], 8, 1000);
    assert_eq!(status, Status::Halted);
    assert_eq!(vm.register.memory_pointer, f(1));
    assert_eq!(vm.register.memory_value, f(0));
    assert_eq!(vm.memory.len(), 2);
    assert_eq!(vm.register.instruction_pointer, f(1));
}

#[test]
fn shift_left_moves_back() {
    let (vm, status) = run_program("+><", &[], 8, 1000);
    assert_eq!(status, Status::Halted);
    assert_eq!(vm.register.memory_pointer, f(0));
    assert_eq!(vm.register.memory_value, f(1));
}

#[test]
fn shift_left_at_cell_zero_is_an_underflow() {
    let (vm, status) = run_program("<", &[], 8, 1000);
    assert_eq!(status, Status::MemoryUnderflow);
    assert_eq!(vm.matrix.processor_matrix.len(), 1);
    assert_eq!(vm.register.cycle, f(0));
}

#[test]
fn getchar_reads_input() {
    let (vm, status) = run_program(",", &[65], 8, 1000);
    assert_eq!(status, Status::Halted);
    assert_eq!(vm.register.memory_value, f(65));
    assert_eq!(vm.matrix.input_matrix, vec![f(65)]);
    assert!(vm.input.is_empty());
}

#[test]
fn getchar_without_input_waits() {
    let (vm, status) = run_program("+,", &[], 8, 1000);
    assert_eq!(status, Status::NeedsInput);
    assert_eq!(vm.register.cycle, f(1));
    assert_eq!(vm.matrix.processor_matrix.len(), 2);
}

#[test]
fn putchar_writes_output() {
    let (vm, status) = run_program("++.", &[], 8, 1000);
    assert_eq!(status, Status::Halted);
    assert_eq!(vm.matrix.output_matrix, vec![f(2)]);
    assert_eq!(vm.register.instruction_pointer, f(3));
}

#[test]
fn left_bracket_jumps_on_zero() {
    let (vm, status) = run_program("[+]", &[], 8, 1000);
    assert_eq!(status, Status::Halted);
    // one executed cycle: the jump past the loop
    assert_eq!(vm.matrix.processor_matrix.len(), 2);
    assert_eq!(vm.register.instruction_pointer, f(5));
    assert_eq!(vm.register.memory_value, f(0));
}

#[test]
fn left_bracket_enters_on_nonzero() {
    let (vm, _) = run_program("+[-]", &[], 8, 1000);
    let rows = &vm.matrix.processor_matrix;
    // + [ - ] halt
    assert_eq!(rows.len(), 5);
    assert_eq!(rows[1].instruction_pointer, f(1));
    assert_eq!(rows[1].next_instruction, f(6));
    assert_eq!(rows[2].instruction_pointer, f(3));
    assert_eq!(rows[3].instruction_pointer, f(4));
    assert_eq!(rows[3].next_instruction, f(3));
    assert_eq!(rows[4].instruction_pointer, f(6));
}

#[test]
fn right_bracket_loops_on_nonzero() {
    let (vm, status) = run_program("++[-]", &[], 8, 1000);
    assert_eq!(status, Status::Halted);
    let ips: Vec<Fr> = vm.matrix.processor_matrix.iter().map(|r| r.instruction_pointer).collect();
    let expect: Vec<Fr> = [0u64, 1, 2, 4, 5, 4, 5, 7].iter().map(|&x| f(x)).collect();
    assert_eq!(ips, expect);
}

#[test]
fn cycle_limit_stops_a_running_machine() {
    let (vm, status) = run_program("+[]", &[], 8, 50);
    assert_eq!(status, Status::Running);
    assert_eq!(vm.register.cycle, f(50));
    assert_eq!(vm.matrix.processor_matrix.len(), 51);
}

#[test]
fn bracket_in_last_cell_misses_its_operand() {
    let mut vm = Interpreter::new();
    vm.set_code(vec![f(0x5B)]);
    assert_eq!(vm.run(10), Status::MissingOperand);
}

#[test]
fn unknown_cell_is_illegal() {
    let mut vm = Interpreter::new();
    vm.set_code(vec![f(0x41)]);
    assert_eq!(vm.run(10), Status::IllegalInstruction);
}

#[test]
fn memory_value_inverse_is_the_inverse() {
    let (vm, _) = run_program("+++", &[], 8, 1000);
    for row in vm.matrix.processor_matrix.iter() {
        if row.memory_value == f(0) {
            assert_eq!(row.memory_value_inverse, f(0));
        } else {
            assert_eq!(row.memory_value.mul(&row.memory_value_inverse), f(1));
        }
    }
}

#[test]
fn tables_are_sorted_and_complete() {
    let (vm, status) = run_program("++>,<[>+.<-]", &[97], 8, 10_000);
    assert_eq!(status, Status::Halted);
    let m = &vm.matrix;
    let n = m.processor_matrix.len();
    assert_eq!(m.memory_matrix.len(), n);
    assert_eq!(m.instruction_matrix.len(), vm.code.len() + n);
    assert!(m.instruction_matrix.len() >= vm.code.len());
    for w in m.instruction_matrix.windows(2) {
        assert!(!w[1].instruction_pointer.lt(&w[0].instruction_pointer));
    }
    for w in m.memory_matrix.windows(2) {
        assert!(!w[1].memory_pointer.lt(&w[0].memory_pointer));
        if w[0].memory_pointer == w[1].memory_pointer {
            assert!(w[0].cycle.lt(&w[1].cycle));
        }
    }
    assert_eq!(m.output_matrix, vec![f(98), f(99)]);
    assert_eq!(m.input_matrix, vec![f(97)]);
    assert_eq!(m.program, vm.code);
    assert_eq!(m.processor_matrix[0].cycle, f(0));
    assert_eq!(m.processor_matrix[0].instruction_pointer, f(0));
    assert_eq!(m.processor_matrix[0].memory_pointer, f(0));
    assert_eq!(m.processor_matrix[0].memory_value, f(0));
}

#[test]
fn compiled_programs_halt_at_their_end() {
    for (program, input) in [
        ("++>,<[>+.<-]", vec![7u64]),
        ("+[-]", vec![]),
        ("[[]]", vec![]),
        ("++[>+[-]<-]>.", vec![]),
        (",[.,]", vec![3, 2, 1, 0]),
    ] {
        let length = code::compile(program.as_bytes().to_vec()).len();
        let (vm, status) = run_program(program, &input, 8, 100_000);
        assert_eq!(status, Status::Halted, "{}", program);
        assert_eq!(vm.register.instruction_pointer, f(length as u64), "{}", program);
        for row in &vm.matrix.processor_matrix {
            assert!(row.instruction_pointer.to_u64().unwrap() as usize <= length);
        }
    }
}
