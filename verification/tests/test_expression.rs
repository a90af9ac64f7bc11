use ckb_bf_zkvm::bn256::fr::Fr;
use ckb_bf_zkvm::interpreter::Register;
use ckb_bf_zkvm::matrix::{InstructionMatrixRow, MemoryMatrixRow};
use ckb_bf_zkvm::plonk::circuit::{
    Advice, Any, Column, FirstPhase, Fixed, Instance, SecondPhase, Selector,
};
use ckb_bf_zkvm::plonk::constraint_system::ConstraintSystem;
use ckb_bf_zkvm::plonk::expression::Expression;
use ckb_bf_zkvm::plonk::permutation::Argument;
use ckb_bf_zkvm::plonk::witness::Witness;
use ckb_bf_zkvm::poly::Rotation;
use ckb_bf_zkvm::utils::{opcode, running_sum_step, PrpValues};

fn f(x: u64) -> Fr {
    Fr::from_u64(x)
}

#[test]
fn degree_adds_over_products_and_takes_the_larger_of_a_sum() {
    let mut cs = ConstraintSystem::default();
    let a = cs.advice_column();
    let s = cs.selector();
    let x = cs.query_advice(a, Rotation::cur());
    let y = cs.query_advice(a, Rotation::next());
    let q = cs.query_selector(s);
    assert_eq!(Expression::constant(f(3)).degree(), 0);
    assert_eq!(x.clone().degree(), 1);
    assert_eq!(x.clone().mul(y.clone()).degree(), 2);
    assert_eq!(x.clone().mul(y.clone()).add(x.clone()).degree(), 2);
    assert_eq!(q.mul(x.clone().square().sub(y.clone())).scale(f(2)).neg().degree(), 3);
}

#[test]
fn complexity_counts_the_operations() {
    let mut cs = ConstraintSystem::default();
    let a = cs.advice_column();
    let x = cs.query_advice(a, Rotation::cur());
    assert_eq!(Expression::constant(f(3)).complexity(), 0);
    assert_eq!(x.clone().complexity(), 1);
    assert_eq!(x.clone().neg().complexity(), 6);
    assert_eq!(x.clone().add(x.clone()).complexity(), 17);
    assert_eq!(x.clone().mul(x.clone()).complexity(), 32);
    assert_eq!(x.clone().scale(f(2)).complexity(), 31);
}

#[test]
fn simple_selectors_are_found_below_any_node() {
    let mut cs = ConstraintSystem::default();
    let a = cs.advice_column();
    let simple = cs.selector();
    let complex = cs.complex_selector();
    assert!(simple.is_simple());
    assert!(!complex.is_simple());
    let x = cs.query_advice(a, Rotation::cur());
    let with_simple = cs.query_selector(simple).mul(x.clone()).neg();
    let with_complex = cs.query_selector(complex).mul(x.clone()).add(x.clone());
    assert!(with_simple.contains_simple_selector());
    assert!(!with_complex.contains_simple_selector());
    assert!(!x.contains_simple_selector());
}

#[test]
fn evaluation_follows_the_shape_of_the_expression() {
    let mut cs = ConstraintSystem::default();
    let a = cs.advice_column();
    let s = cs.selector();
    let x = cs.query_advice(a, Rotation::cur());
    // s * (x * x - 3) + 2 * x
    let e = cs
        .query_selector(s)
        .mul(x.clone().square().sub(Expression::constant(f(3))))
        .add(x.scale(f(2)));
    let value = e.evaluate(
        &|c: Fr| c,
        &|_: Selector| f(1),
        &|_| f(0),
        &|_| f(5),
        &|_| f(0),
        &|_| f(0),
        &|v: Fr| v.neg(),
        &|u: Fr, v: Fr| u.add(&v),
        &|u: Fr, v: Fr| u.mul(&v),
        &|u: Fr, c: Fr| u.mul(&c),
    );
    assert_eq!(value, f(32));
    let count = e.evaluate(
        &|_| 1usize,
        &|_| 1usize,
        &|_| 1usize,
        &|_| 1usize,
        &|_| 1usize,
        &|_| 1usize,
        &|v: usize| v + 1,
        &|u: usize, v: usize| u + v + 1,
        &|u: usize, v: usize| u + v + 1,
        &|u: usize, _| u + 1,
    );
    assert_eq!(count, 11);
}

#[test]
fn witness_evaluates_rotations_around_the_end() {
    let mut cs = ConstraintSystem::default();
    let a = cs.advice_column();
    let s = cs.selector();
    let cur = cs.query_advice(a, Rotation::cur());
    let next = cs.query_advice(a, Rotation::next());
    let prev = cs.query_advice(a, Rotation::prev());
    let q = cs.query_selector(s);
    let mut w = Witness::new(&cs, 4, Vec::new());
    for row in 0..4 {
        w.assign_advice(a, row, f(10 + row as u64)).unwrap();
    }
    w.enable_selector(&s, 2).unwrap();
    assert_eq!(w.rotate(3, Rotation::next()), 0);
    assert_eq!(w.rotate(0, Rotation::prev()), 3);
    assert_eq!(w.rotate(1, Rotation(6)), 3);
    assert_eq!(w.rotate(1, Rotation(-6)), 3);
    assert_eq!(w.rotate(2, Rotation::cur()), 2);
    assert_eq!(w.evaluate(&next, 3), f(10));
    assert_eq!(w.evaluate(&prev, 0), f(13));
    assert_eq!(w.evaluate(&cur, 1), f(11));
    assert_eq!(w.evaluate(&q, 2), f(1));
    assert_eq!(w.evaluate(&q, 1), f(0));
    // on row 2: 1 * (13 - 12) * 11
    let e = q.mul(next.sub(cur)).mul(prev);
    assert_eq!(w.evaluate(&e, 2), f(11));
    assert_eq!(w.evaluate(&e, 1), f(0));
}

#[test]
fn running_product_step_is_exact() {
    let values = PrpValues { alpha: f(10), d: f(1), e: f(2), f: f(3) };
    // 2 * (10 - 1*1 - 2*1 - 3*1)
    assert_eq!(values.step(&f(2), &f(1), &f(1), &f(1)), f(8));
    // 3 * (10 - 4 - 0 - 9) = 3 * (-3)
    assert_eq!(values.step(&f(3), &f(4), &f(0), &f(3)), f(9).neg());
}

#[test]
fn running_sum_step_is_exact() {
    // 2 * 3 + 5
    assert_eq!(running_sum_step(&f(3), &f(2), &f(5)), f(11));
    assert_eq!(running_sum_step(&f(3), &f(0), &f(0)), f(0));
}

#[test]
fn opcodes_by_index() {
    let symbols: Vec<u8> = (0..8).map(opcode).collect();
    assert_eq!(symbols, b"<>+-,.[]".to_vec());
}

#[test]
fn columns_are_ordered_by_kind_then_index() {
    assert!(Any::Instance.precedes(&Any::advice()));
    assert!(Any::advice().precedes(&Any::advice_in(SecondPhase)));
    assert!(!Any::advice_in(FirstPhase).precedes(&Any::advice()));
    assert!(Any::advice_in(SecondPhase).precedes(&Any::Fixed));
    assert!(!Any::Fixed.precedes(&Any::Instance));
    let low = Column::new(1, Any::Fixed);
    let high = Column::new(2, Any::Fixed);
    let advice = Column::new(7, Any::advice());
    assert!(low.precedes(&high));
    assert!(!high.precedes(&low));
    assert!(!low.precedes(&low));
    assert!(advice.precedes(&low));
}

#[test]
fn column_kinds_convert_back() {
    let mut cs = ConstraintSystem::default();
    let a = cs.advice_column_in(SecondPhase);
    let x = cs.fixed_column();
    let i = cs.instance_column();
    assert_eq!(a.to_any().to_advice().map(|c| (c.index(), c.column_type().phase())), Some((0, 1)));
    assert!(a.to_any().to_fixed().is_none());
    assert_eq!(x.to_any().to_fixed().map(|c| c.index()), Some(0));
    assert!(x.to_any().to_instance().is_none());
    assert_eq!(i.to_any().to_instance().map(|c| c.index()), Some(0));
    assert!(i.to_any().to_advice().is_none());
}

#[test]
fn permutation_argument_holds_each_column_once() {
    let mut argument = Argument::new();
    let a = Column::new(0, Any::advice());
    let b = Column::new(0, Any::Fixed);
    argument.add_column(a);
    argument.add_column(b);
    argument.add_column(a);
    assert_eq!(argument.get_columns().len(), 2);
    assert!(argument.contains(&a));
    assert!(argument.contains(&b));
    assert!(!argument.contains(&Column::new(1, Any::advice())));
    assert_eq!(argument.required_degree(), 3);
}

#[test]
fn queries_are_numbered_once() {
    let mut cs = ConstraintSystem::default();
    let a = cs.advice_column();
    let b = cs.advice_column();
    assert_eq!(cs.query_advice_index(a, Rotation::cur()), 0);
    assert_eq!(cs.query_advice_index(a, Rotation::next()), 1);
    assert_eq!(cs.query_advice_index(b, Rotation::cur()), 2);
    assert_eq!(cs.query_advice_index(a, Rotation::next()), 1);
    assert_eq!(cs.advice_queries.len(), 3);
}

#[test]
fn columns_convert_between_their_kinds() {
    let mut cs = ConstraintSystem::default();
    let a = cs.advice_column_in(SecondPhase);
    let x = cs.fixed_column();
    let i = cs.instance_column();
    let any_a = Column::<Any>::from(a);
    let any_x: Column<Any> = x.into();
    let any_i: Column<Any> = i.into();
    assert_eq!(any_a.column_type, Any::from(a.column_type));
    assert_eq!(any_x.column_type, Any::Fixed);
    assert_eq!(any_i.column_type, Any::from(Instance));
    assert_eq!(Any::from(Fixed), Any::Fixed);
    assert_eq!(Column::<Advice>::try_from(any_a).map(|c| (c.index, c.column_type.phase())), Ok((0, 1)));
    assert_eq!(
        Column::<Advice>::try_from(any_x).map(|c| c.index),
        Err("Cannot convert into Column<Advice>")
    );
    assert_eq!(Column::<Fixed>::try_from(any_x).map(|c| c.index), Ok(0));
    assert_eq!(
        Column::<Fixed>::try_from(any_i).map(|c| c.index),
        Err("Cannot convert into Column<Fixed>")
    );
    assert_eq!(Column::<Instance>::try_from(any_i).map(|c| c.index), Ok(0));
    assert_eq!(
        Column::<Instance>::try_from(any_a).map(|c| c.index),
        Err("Cannot convert into Column<Instance>")
    );
}

#[test]
fn table_rows_come_from_a_register() {
    let register = Register {
        cycle: f(5),
        instruction_pointer: f(3),
        current_instruction: f(0x2B),
        next_instruction: f(0x2E),
        memory_pointer: f(2),
        memory_value: f(9),
        memory_value_inverse: f(9).invert().unwrap(),
    };
    let instruction = InstructionMatrixRow::from(&register);
    assert_eq!(instruction.instruction_pointer, f(3));
    assert_eq!(instruction.current_instruction, f(0x2B));
    assert_eq!(instruction.next_instruction, f(0x2E));
    let memory = MemoryMatrixRow::from(&register);
    assert_eq!(memory.cycle, f(5));
    assert_eq!(memory.memory_pointer, f(2));
    assert_eq!(memory.memory_value, f(9));
    assert_eq!(memory.interweave_indicator, f(0));
}
