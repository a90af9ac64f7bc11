//! The cubic extension of `Fq2`: `Fq2[v] / (v^3 - (9 + u))`.

use crate::bn256::fq::fq_is_inverse;
use crate::bn256::fq::fq_modulus;
use crate::bn256::fq2::fq2_add;
use crate::bn256::fq2::fq2_conjugate;
use crate::bn256::fq2::fq2_frobenius;
use crate::bn256::fq2::fq2_mul;
use crate::bn256::fq2::fq2_mul_by_nonresidue;
use crate::bn256::fq2::fq2_neg;
use crate::bn256::fq2::fq2_norm;
use crate::bn256::fq2::fq2_scale;
use crate::bn256::fq2::fq2_sub;
use crate::bn256::fq2::Fq2;
use crate::bn256::fq2::Fq2View;
use crate::bn256::frobenius::frobenius_coeff_fq6_c1;
use crate::bn256::frobenius::frobenius_coeff_fq6_c1_of;
use crate::bn256::frobenius::frobenius_coeff_fq6_c2;
use crate::bn256::frobenius::frobenius_coeff_fq6_c2_of;
use crate::u256::invertible;
use vstd::prelude::*;

verus! {

/// An element `c0 + c1 * v + c2 * v^2` as a triple.
pub struct Fq6View {
    pub c0: Fq2View,
    pub c1: Fq2View,
    pub c2: Fq2View,
}

/// The zero of `Fq2`.
pub open spec fn fq2_zero() -> Fq2View {
    Fq2View { c0: 0, c1: 0 }
}

/// Sum, coefficient by coefficient.
pub open spec fn fq6_add(a: Fq6View, b: Fq6View) -> Fq6View {
    Fq6View { c0: fq2_add(a.c0, b.c0), c1: fq2_add(a.c1, b.c1), c2: fq2_add(a.c2, b.c2) }
}

/// Difference, coefficient by coefficient.
pub open spec fn fq6_sub(a: Fq6View, b: Fq6View) -> Fq6View {
    Fq6View { c0: fq2_sub(a.c0, b.c0), c1: fq2_sub(a.c1, b.c1), c2: fq2_sub(a.c2, b.c2) }
}

/// Negation, coefficient by coefficient.
pub open spec fn fq6_neg(a: Fq6View) -> Fq6View {
    Fq6View { c0: fq2_neg(a.c0), c1: fq2_neg(a.c1), c2: fq2_neg(a.c2) }
}

/// Product, with `v^3` the non-residue `xi`:
/// `(a0 b0 + xi (a1 b2 + a2 b1)) + (a0 b1 + a1 b0 + xi a2 b2) v
///  + (a0 b2 + a1 b1 + a2 b0) v^2`.
pub open spec fn fq6_mul(a: Fq6View, b: Fq6View) -> Fq6View {
    Fq6View {
        c0: fq2_add(
            fq2_mul(a.c0, b.c0),
            fq2_mul_by_nonresidue(fq2_add(fq2_mul(a.c1, b.c2), fq2_mul(a.c2, b.c1))),
        ),
        c1: fq2_add(
            fq2_add(fq2_mul(a.c0, b.c1), fq2_mul(a.c1, b.c0)),
            fq2_mul_by_nonresidue(fq2_mul(a.c2, b.c2)),
        ),
        c2: fq2_add(fq2_add(fq2_mul(a.c0, b.c2), fq2_mul(a.c1, b.c1)), fq2_mul(a.c2, b.c0)),
    }
}

/// Product with `v`: `xi a2 + a0 v + a1 v^2`.
pub open spec fn fq6_mul_by_nonresidue(a: Fq6View) -> Fq6View {
    Fq6View { c0: fq2_mul_by_nonresidue(a.c2), c1: a.c0, c2: a.c1 }
}

/// Product with the element `b1 * v`.
pub open spec fn fq6_mul_by_1(a: Fq6View, b1: Fq2View) -> Fq6View {
    fq6_mul(a, Fq6View { c0: fq2_zero(), c1: b1, c2: fq2_zero() })
}

/// Product with the element `b0 + b1 * v`.
pub open spec fn fq6_mul_by_01(a: Fq6View, b0: Fq2View, b1: Fq2View) -> Fq6View {
    fq6_mul(a, Fq6View { c0: b0, c1: b1, c2: fq2_zero() })
}

/// Product of every coefficient with an element of `Fq2`.
pub open spec fn fq6_scale(a: Fq6View, k: Fq2View) -> Fq6View {
    Fq6View { c0: fq2_mul(a.c0, k), c1: fq2_mul(a.c1, k), c2: fq2_mul(a.c2, k) }
}

/// The `power`-th power of the Frobenius map: that of each coefficient,
/// times a power of the non-residue for `c1` and `c2`.
pub open spec fn fq6_frobenius(a: Fq6View, power: nat) -> Fq6View {
    Fq6View {
        c0: fq2_frobenius(a.c0, power),
        c1: fq2_mul(fq2_frobenius(a.c1, power), frobenius_coeff_fq6_c1((power % 6) as int)),
        c2: fq2_mul(fq2_frobenius(a.c2, power), frobenius_coeff_fq6_c2((power % 6) as int)),
    }
}

/// The three cofactors of the inverse:
/// `a0^2 - xi a1 a2`, `xi a2^2 - a0 a1`, `a1^2 - a0 a2`.
pub open spec fn fq6_cofactors(a: Fq6View) -> Fq6View {
    Fq6View {
        c0: fq2_sub(fq2_mul(a.c0, a.c0), fq2_mul_by_nonresidue(fq2_mul(a.c1, a.c2))),
        c1: fq2_sub(fq2_mul_by_nonresidue(fq2_mul(a.c2, a.c2)), fq2_mul(a.c0, a.c1)),
        c2: fq2_sub(fq2_mul(a.c1, a.c1), fq2_mul(a.c0, a.c2)),
    }
}

/// The norm to `Fq2`: `a0 c0 + xi (a2 c1 + a1 c2)` for the cofactors `c`.
pub open spec fn fq6_norm(a: Fq6View) -> Fq2View {
    let c = fq6_cofactors(a);
    fq2_add(
        fq2_mul(a.c0, c.c0),
        fq2_mul_by_nonresidue(fq2_add(fq2_mul(a.c2, c.c1), fq2_mul(a.c1, c.c2))),
    )
}

/// `x` is the inverse of `a` as `invert` computes it: the cofactors times
/// the inverse of the norm, which is its conjugate times an inverse `t` of
/// its own norm.
pub open spec fn fq6_inverted(a: Fq6View, x: Fq6View) -> bool {
    exists|t: nat| #[trigger]
        fq_is_inverse(fq2_norm(fq6_norm(a)), t) && x == fq6_scale(
            fq6_cofactors(a),
            fq2_scale(fq2_conjugate(fq6_norm(a)), t),
        )
}

/// An element of the cubic extension, `c0 + c1 * v + c2 * v^2`.
#[derive(Clone, Copy, Debug, PartialEq, Eq, Structural)]
pub struct Fq6 {
    pub c0: Fq2,
    pub c1: Fq2,
    pub c2: Fq2,
}

impl View for Fq6 {
    type V = Fq6View;

    open spec fn view(&self) -> Fq6View {
        Fq6View { c0: self.c0@, c1: self.c1@, c2: self.c2@ }
    }
}

impl Default for Fq6 {
    fn default() -> (r: Fq6)
        ensures
            r@ == (Fq6View { c0: fq2_zero(), c1: fq2_zero(), c2: fq2_zero() }),
    {
        Fq6::zero()
    }
}

impl Fq6 {
    pub fn zero() -> (r: Fq6)
        ensures
            r@ == (Fq6View { c0: fq2_zero(), c1: fq2_zero(), c2: fq2_zero() }),
    {
        Fq6 { c0: Fq2::zero(), c1: Fq2::zero(), c2: Fq2::zero() }
    }

    pub fn one() -> (r: Fq6)
        ensures
            r@ == (Fq6View { c0: Fq2View { c0: 1, c1: 0 }, c1: fq2_zero(), c2: fq2_zero() }),
    {
        Fq6 { c0: Fq2::one(), c1: Fq2::zero(), c2: Fq2::zero() }
    }

    pub fn is_zero(&self) -> (r: bool)
        ensures
            r == (self@ == Fq6View { c0: fq2_zero(), c1: fq2_zero(), c2: fq2_zero() }),
    {
        self.c0.is_zero() && self.c1.is_zero() && self.c2.is_zero()
    }

    pub fn add(&self, rhs: &Fq6) -> (r: Fq6)
        ensures
            r@ == fq6_add(self@, rhs@),
    {
        Fq6 { c0: self.c0.add(&rhs.c0), c1: self.c1.add(&rhs.c1), c2: self.c2.add(&rhs.c2) }
    }

    pub fn sub(&self, rhs: &Fq6) -> (r: Fq6)
        ensures
            r@ == fq6_sub(self@, rhs@),
    {
        Fq6 { c0: self.c0.sub(&rhs.c0), c1: self.c1.sub(&rhs.c1), c2: self.c2.sub(&rhs.c2) }
    }

    pub fn neg(&self) -> (r: Fq6)
        ensures
            r@ == fq6_neg(self@),
    {
        Fq6 { c0: self.c0.neg(), c1: self.c1.neg(), c2: self.c2.neg() }
    }

    pub fn double(&self) -> (r: Fq6)
        ensures
            r@ == fq6_add(self@, self@),
    {
        self.add(self)
    }

    pub fn mul(&self, rhs: &Fq6) -> (r: Fq6)
        ensures
            r@ == fq6_mul(self@, rhs@),
    {
        let a = self;
        let b = rhs;
        Fq6 {
            c0: a.c0.mul(&b.c0).add(&a.c1.mul(&b.c2).add(&a.c2.mul(&b.c1)).mul_by_nonresidue()),
            c1: a.c0.mul(&b.c1).add(&a.c1.mul(&b.c0)).add(&a.c2.mul(&b.c2).mul_by_nonresidue()),
            c2: a.c0.mul(&b.c2).add(&a.c1.mul(&b.c1)).add(&a.c2.mul(&b.c0)),
        }
    }

    pub fn square(&self) -> (r: Fq6)
        ensures
            r@ == fq6_mul(self@, self@),
    {
        self.mul(self)
    }

    /// The product with `v`.
    pub fn mul_by_nonresidue(&self) -> (r: Fq6)
        ensures
            r@ == fq6_mul_by_nonresidue(self@),
    {
        Fq6 { c0: self.c2.mul_by_nonresidue(), c1: self.c0, c2: self.c1 }
    }

    /// The product with the element `b1 * v`.
    pub fn mul_by_1(&self, b1: &Fq2) -> (r: Fq6)
        ensures
            r@ == fq6_mul_by_1(self@, b1@),
    {
        let b = Fq6 { c0: Fq2::zero(), c1: *b1, c2: Fq2::zero() };
        self.mul(&b)
    }

    /// The product with the element `b0 + b1 * v`.
    pub fn mul_by_01(&self, b0: &Fq2, b1: &Fq2) -> (r: Fq6)
        ensures
            r@ == fq6_mul_by_01(self@, b0@, b1@),
    {
        let b = Fq6 { c0: *b0, c1: *b1, c2: Fq2::zero() };
        self.mul(&b)
    }

    /// The product of every coefficient with an element of `Fq2`.
    pub fn scale(&self, k: &Fq2) -> (r: Fq6)
        ensures
            r@ == fq6_scale(self@, k@),
    {
        Fq6 { c0: self.c0.mul(k), c1: self.c1.mul(k), c2: self.c2.mul(k) }
    }

    /// The `power`-th power of the Frobenius map.
    pub fn frobenius_map(&self, power: usize) -> (r: Fq6)
        ensures
            r@ == fq6_frobenius(self@, power as nat),
    {
        Fq6 {
            c0: self.c0.frobenius_map(power),
            c1: self.c1.frobenius_map(power).mul(&frobenius_coeff_fq6_c1_of(power % 6)),
            c2: self.c2.frobenius_map(power).mul(&frobenius_coeff_fq6_c2_of(power % 6)),
        }
    }

    /// The multiplicative inverse, where the norm of the norm has one.
    pub fn invert(&self) -> (r: Option<Fq6>)
        ensures
            match r {
                Some(x) => fq6_inverted(self@, x@),
                None => !invertible(fq2_norm(fq6_norm(self@)), fq_modulus()),
            },
    {
        let c0 = self.c0.square().sub(&self.c1.mul(&self.c2).mul_by_nonresidue());
        let c1 = self.c2.square().mul_by_nonresidue().sub(&self.c0.mul(&self.c1));
        let c2 = self.c1.square().sub(&self.c0.mul(&self.c2));
        let norm = self.c0.mul(&c0).add(
            &self.c2.mul(&c1).add(&self.c1.mul(&c2)).mul_by_nonresidue(),
        );
        match norm.invert() {
            Some(t) => {
                let cofactors = Fq6 { c0, c1, c2 };
                let r = cofactors.scale(&t);
                proof {
                    assert(cofactors@ == fq6_cofactors(self@));
                    assert(norm@ == fq6_norm(self@));
                    let w = choose|w: nat| #[trigger]
                        fq_is_inverse(fq2_norm(norm@), w) && t@ == fq2_scale(
                            fq2_conjugate(norm@),
                            w,
                        );
                    assert(fq_is_inverse(fq2_norm(fq6_norm(self@)), w));
                }
                Some(r)
            },
            None => None,
        }
    }
}

} // verus!
