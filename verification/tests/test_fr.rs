use ckb_bf_zkvm::bn256::fr::Fr;

const P_HI: u128 = 0x30644e72e131a029b85045b68181585d;
const P_LO: u128 = 0x2833e84879b9709143e1f593f0000001;

fn f(x: u64) -> Fr {
    Fr::from_u64(x)
}

fn largest() -> Fr {
    Fr::from_halves(P_HI, P_LO - 1).unwrap()
}

#[test]
fn modulus_is_not_a_scalar() {
    assert!(Fr::from_halves(P_HI, P_LO).is_none());
    assert!(Fr::from_halves(P_HI + 1, 0).is_none());
    assert!(Fr::from_halves(u128::MAX, u128::MAX).is_none());
    assert_eq!(largest().to_halves(), (P_HI, P_LO - 1));
}

#[test]
fn addition_wraps_at_the_modulus() {
    assert_eq!(largest().add(&f(2)), f(1));
    assert_eq!(largest().add(&Fr::one()), Fr::zero());
    assert_eq!(f(3).add(&f(4)), f(7));
    assert_eq!(largest().double(), largest().sub(&Fr::one()));
}

#[test]
fn subtraction_wraps_below_zero() {
    assert_eq!(Fr::zero().sub(&Fr::one()), largest());
    assert_eq!(f(3).sub(&f(5)), largest().sub(&Fr::one()));
    assert_eq!(f(9).sub(&f(4)), f(5));
}

#[test]
fn negation_is_the_additive_inverse() {
    assert_eq!(Fr::zero().neg(), Fr::zero());
    assert_eq!(Fr::one().neg(), largest());
    assert_eq!(f(77).neg().add(&f(77)), Fr::zero());
}

#[test]
fn product_is_reduced() {
    // 2^128 squared is 2^256, reduced by the modulus
    let x = Fr::from_halves(1, 0).unwrap();
    let expected = Fr::from_halves(
        0x0e0a77c19a07df2f666ea36f7879462e,
        0x36fc76959f60cd29ac96341c4ffffffb,
    )
    .unwrap();
    assert_eq!(x.mul(&x), expected);
    assert_eq!(x.square(), expected);
    assert_eq!(f(6).mul(&f(7)), f(42));
    assert_eq!(largest().mul(&largest()), Fr::one());
    assert_eq!(f(5).mul(&Fr::zero()), Fr::zero());
}

#[test]
fn wide_integers_keep_their_value() {
    assert_eq!(Fr::from_u128(u128::MAX).to_halves(), (0, u128::MAX));
    assert_eq!(Fr::from_u128(5), f(5));
    assert_eq!(f(u64::MAX).to_u64(), Some(u64::MAX));
    assert_eq!(Fr::from_u128(1 << 64).to_u64(), None);
    assert_eq!(largest().get_lower_128(), P_LO - 1);
    assert_eq!(Fr::default(), Fr::zero());
}

#[test]
fn inverse_of_small_numbers() {
    let half = Fr::from_halves(
        0x183227397098d014dc2822db40c0ac2e,
        0x9419f4243cdcb848a1f0fac9f8000001,
    )
    .unwrap();
    assert_eq!(f(2).invert(), Some(half));
    let seventh = Fr::from_halves(
        0x06e9c21069503b73ac9dc0d0edede80d,
        0x4ee2d80a5a8834a709b290cbfdb6db6e,
    )
    .unwrap();
    assert_eq!(f(7).invert(), Some(seventh));
    assert_eq!(f(7).inverse_or_zero(), seventh);
    assert_eq!(Fr::one().invert(), Some(Fr::one()));
    assert_eq!(largest().invert(), Some(largest()));
}

#[test]
fn zero_has_no_inverse() {
    assert_eq!(Fr::zero().invert(), None);
    assert_eq!(Fr::zero().inverse_or_zero(), Fr::zero());
    assert!(Fr::zero().is_zero());
    assert!(!Fr::one().is_zero());
}

#[test]
fn scalars_are_ordered_by_their_residue() {
    assert!(f(3).lt(&f(4)));
    assert!(!f(4).lt(&f(4)));
    assert!(!largest().lt(&f(4)));
    assert!(Fr::from_u128(u128::MAX).lt(&Fr::from_halves(1, 0).unwrap()));
}
