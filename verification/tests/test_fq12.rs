use ckb_bf_zkvm::bn256::fq::Fq;
use ckb_bf_zkvm::bn256::fq12::Fq12;
use ckb_bf_zkvm::bn256::fq2::Fq2;
use ckb_bf_zkvm::bn256::fq6::Fq6;
use rand::RngCore;
use rand::SeedableRng;
use rand_xorshift::XorShiftRng;

const SEED: [u8; 16] = [
    0x59, 0x62, 0xbe, 0x5d, 0x76, 0x3d, 0x31, 0x8d, 0x17, 0xdb, 0x37, 0x32, 0x54, 0x06, 0xbc, 0xe5,
];

fn random_fq(rng: &mut XorShiftRng) -> Fq {
    loop {
        let hi = (((rng.next_u64() as u128) << 64) | rng.next_u64() as u128) >> 2;
        let lo = ((rng.next_u64() as u128) << 64) | rng.next_u64() as u128;
        if let Some(x) = Fq::from_halves(hi, lo) {
            return x;
        }
    }
}

fn random_fq2(rng: &mut XorShiftRng) -> Fq2 {
    Fq2 { c0: random_fq(rng), c1: random_fq(rng) }
}

fn random_fq6(rng: &mut XorShiftRng) -> Fq6 {
    Fq6 { c0: random_fq2(rng), c1: random_fq2(rng), c2: random_fq2(rng) }
}

fn random_fq12(rng: &mut XorShiftRng) -> Fq12 {
    Fq12 { c0: random_fq6(rng), c1: random_fq6(rng) }
}

/// `a` to the power given by four 64-bit limbs, least significant first.
fn pow_vartime(a: &Fq12, exp: &[u64; 4]) -> Fq12 {
    let mut res = Fq12::one();
    for e in exp.iter().rev() {
        for i in (0..64).rev() {
            res = res.square();
            if ((*e >> i) & 1) == 1 {
                res = res.mul(a);
            }
        }
    }
    res
}

#[test]
fn test_fq12_mul_by_014() {
    let mut rng = XorShiftRng::from_seed(SEED);

    for _ in 0..1000 {
        let c0 = random_fq2(&mut rng);
        let c1 = random_fq2(&mut rng);
        let c5 = random_fq2(&mut rng);
        let mut a = random_fq12(&mut rng);
        let mut b = a;

        a.mul_by_014(&c0, &c1, &c5);
        b.mul_assign(&Fq12 {
            c0: Fq6 { c0, c1, c2: Fq2::zero() },
            c1: Fq6 { c0: Fq2::zero(), c1: c5, c2: Fq2::zero() },
        });

        assert_eq!(a, b);
    }
}

#[test]
fn test_fq12_mul_by_034() {
    let mut rng = XorShiftRng::from_seed(SEED);

    for _ in 0..1000 {
        let c0 = random_fq2(&mut rng);
        let c3 = random_fq2(&mut rng);
        let c4 = random_fq2(&mut rng);
        let mut a = random_fq12(&mut rng);
        let mut b = a;

        a.mul_by_034(&c0, &c3, &c4);
        b.mul_assign(&Fq12 {
            c0: Fq6 { c0, c1: Fq2::zero(), c2: Fq2::zero() },
            c1: Fq6 { c0: c3, c1: c4, c2: Fq2::zero() },
        });

        assert_eq!(a, b);
    }
}

#[test]
fn test_squaring() {
    let mut rng = XorShiftRng::from_seed(SEED);

    for _ in 0..1000 {
        let mut a = random_fq12(&mut rng);
        let mut b = a;
        b.mul_assign(&a);
        a.square_assign();
        assert_eq!(a, b);
    }
}

#[test]
fn test_frobenius() {
    let mut rng = XorShiftRng::from_seed(SEED);
    let q = [0x3c208c16d87cfd47, 0x97816a916871ca8d, 0xb85045b68181585d, 0x30644e72e131a029];

    // one element taken through all fourteen powers: each power of the map
    // is compared with one more exponentiation of the power before
    let start = random_fq12(&mut rng);
    let mut a = start;
    for i in 0..14 {
        if i > 0 {
            a = pow_vartime(&a, &q);
        }
        let mut b = start;
        b.frobenius_map(i);

        assert_eq!(a, b);
    }
}

#[test]
fn test_field() {
    let name = "fq12".to_string();
    let mut rng = XorShiftRng::from_seed(SEED);
    let zero = Fq12::zero();
    let one = Fq12::one();
    assert!(zero.is_zero(), "{}: zero is zero", name);
    assert!(!one.is_zero(), "{}: one is not zero", name);
    assert_eq!(zero.neg(), zero);
    assert_eq!(one.mul(&one), one);
    assert!(zero.invert().is_none(), "{}: zero has no inverse", name);
    assert_eq!(one.invert(), Some(one));

    for _ in 0..20 {
        let a = random_fq12(&mut rng);
        let b = random_fq12(&mut rng);
        let c = random_fq12(&mut rng);

        // addition: associative, commutative, with zero and negation
        assert_eq!(a.add(&b).add(&c), a.add(&b.add(&c)));
        assert_eq!(a.add(&b), b.add(&a));
        assert_eq!(a.add(&zero), a);
        assert_eq!(a.add(&a.neg()), zero);
        assert_eq!(a.sub(&b), a.add(&b.neg()));
        assert_eq!(a.sub(&a), zero);
        assert_eq!(a.double(), a.add(&a));
        let mut d = a;
        d.double_assign();
        assert_eq!(d, a.double());

        // multiplication: associative, commutative, with one and zero
        assert_eq!(a.mul(&b).mul(&c), a.mul(&b.mul(&c)));
        assert_eq!(a.mul(&b), b.mul(&a));
        assert_eq!(a.mul(&one), a);
        assert_eq!(a.mul(&zero), zero);
        assert_eq!(a.square(), a.mul(&a));

        // multiplication distributes over addition
        assert_eq!(a.mul(&b.add(&c)), a.mul(&b).add(&a.mul(&c)));
        assert_eq!(a.add(&b).square(), a.square().add(&b.square()).add(&a.mul(&b).double()));

        // inversion
        let inv = a.invert().expect("a random element is not zero");
        assert_eq!(a.mul(&inv), one);
        assert_eq!(inv.invert(), Some(a));
        assert_eq!(a.mul(&b).invert(), Some(inv.mul(&b.invert().unwrap())));
    }
}

#[test]
fn conjugate_negates_the_second_coefficient() {
    let mut rng = XorShiftRng::from_seed(SEED);
    let a = random_fq12(&mut rng);
    let mut b = a;
    b.conjugate();
    assert_eq!(b.c0, a.c0);
    assert_eq!(b.c1, a.c1.neg());
    b.conjugate();
    assert_eq!(b, a);
}

#[test]
fn frobenius_map_has_order_twelve() {
    let mut rng = XorShiftRng::from_seed(SEED);
    let a = random_fq12(&mut rng);
    let mut b = a;
    for _ in 0..12 {
        b.frobenius_map(1);
    }
    assert_eq!(a, b);
    let mut c = a;
    c.frobenius_map(6);
    let mut d = a;
    d.conjugate();
    assert_eq!(c, d);
}

#[test]
fn cyclotomic_square_squares_in_the_cyclotomic_subgroup() {
    let mut rng = XorShiftRng::from_seed(SEED);
    let a = random_fq12(&mut rng);
    // a^((q^6 - 1)(q^2 + 1)) lies in the cyclotomic subgroup
    let mut conj = a;
    conj.conjugate();
    let b = conj.mul(&a.invert().unwrap());
    let mut c = b;
    c.frobenius_map(2);
    let g = c.mul(&b);
    let mut s = g;
    s.cyclotomic_square();
    assert_eq!(s, g.square());
}

#[test]
fn fq_inverse_of_small_numbers() {
    for x in 1..50u64 {
        let a = Fq::from_u64(x);
        let inv = a.invert().unwrap();
        assert_eq!(a.mul(&inv), Fq::one());
    }
    assert!(Fq::zero().invert().is_none());
}

#[test]
fn fq_modulus_is_not_an_element() {
    let hi = 0x30644e72e131a029b85045b68181585du128;
    let lo = 0x97816a916871ca8d3c208c16d87cfd47u128;
    assert!(Fq::from_halves(hi, lo).is_none());
    let top = Fq::from_halves(hi, lo - 1).unwrap();
    assert_eq!(top.add(&Fq::one()), Fq::zero());
    assert_eq!(Fq::zero().sub(&Fq::one()), top);
    assert_eq!(Fq::one().neg(), top);
    assert_eq!(top.mul(&top), Fq::one());
}
