//! The quadratic extension of the base field: `Fq[u] / (u^2 + 1)`.

use crate::bn256::fq::fq_add;
use crate::bn256::fq::fq_is_inverse;
use crate::bn256::fq::fq_modulus;
use crate::bn256::fq::fq_mul;
use crate::bn256::fq::fq_neg;
use crate::bn256::fq::fq_sub;
use crate::bn256::fq::Fq;
use crate::u256::invertible;
use vstd::prelude::*;

verus! {

/// An element `c0 + c1 * u` as a pair of residues.
pub struct Fq2View {
    pub c0: nat,
    pub c1: nat,
}

/// Sum, coefficient by coefficient.
pub open spec fn fq2_add(a: Fq2View, b: Fq2View) -> Fq2View {
    Fq2View { c0: fq_add(a.c0, b.c0), c1: fq_add(a.c1, b.c1) }
}

/// Difference, coefficient by coefficient.
pub open spec fn fq2_sub(a: Fq2View, b: Fq2View) -> Fq2View {
    Fq2View { c0: fq_sub(a.c0, b.c0), c1: fq_sub(a.c1, b.c1) }
}

/// Negation, coefficient by coefficient.
pub open spec fn fq2_neg(a: Fq2View) -> Fq2View {
    Fq2View { c0: fq_neg(a.c0), c1: fq_neg(a.c1) }
}

/// Product, with `u^2 = -1`:
/// `(a0 b0 - a1 b1) + (a0 b1 + a1 b0) u`.
pub open spec fn fq2_mul(a: Fq2View, b: Fq2View) -> Fq2View {
    Fq2View {
        c0: fq_sub(fq_mul(a.c0, b.c0), fq_mul(a.c1, b.c1)),
        c1: fq_add(fq_mul(a.c0, b.c1), fq_mul(a.c1, b.c0)),
    }
}

/// Product with an element of the base field.
pub open spec fn fq2_scale(a: Fq2View, k: nat) -> Fq2View {
    Fq2View { c0: fq_mul(a.c0, k), c1: fq_mul(a.c1, k) }
}

/// Product with the non-residue `9 + u`:
/// `(9 a0 - a1) + (a0 + 9 a1) u`.
pub open spec fn fq2_mul_by_nonresidue(a: Fq2View) -> Fq2View {
    Fq2View {
        c0: fq_sub(fq_mul(a.c0, 9), a.c1),
        c1: fq_add(a.c0, fq_mul(a.c1, 9)),
    }
}

/// The conjugate `c0 - c1 * u`.
pub open spec fn fq2_conjugate(a: Fq2View) -> Fq2View {
    Fq2View { c0: a.c0, c1: fq_neg(a.c1) }
}

/// The norm `c0^2 + c1^2`, an element of the base field.
pub open spec fn fq2_norm(a: Fq2View) -> nat {
    fq_add(fq_mul(a.c0, a.c0), fq_mul(a.c1, a.c1))
}

/// The `power`-th power of the Frobenius map: the conjugate for an odd
/// power, the element itself for an even one.
pub open spec fn fq2_frobenius(a: Fq2View, power: nat) -> Fq2View {
    if power % 2 == 1 {
        fq2_conjugate(a)
    } else {
        a
    }
}

/// An element of the quadratic extension, `c0 + c1 * u`.
#[derive(Clone, Copy, Debug, PartialEq, Eq, Structural)]
pub struct Fq2 {
    pub c0: Fq,
    pub c1: Fq,
}

impl View for Fq2 {
    type V = Fq2View;

    open spec fn view(&self) -> Fq2View {
        Fq2View { c0: self.c0@, c1: self.c1@ }
    }
}

impl Default for Fq2 {
    fn default() -> (r: Fq2)
        ensures
            r@ == (Fq2View { c0: 0, c1: 0 }),
    {
        Fq2::zero()
    }
}

impl Fq2 {
    pub fn zero() -> (r: Fq2)
        ensures
            r@ == (Fq2View { c0: 0, c1: 0 }),
    {
        Fq2 { c0: Fq::zero(), c1: Fq::zero() }
    }

    pub fn one() -> (r: Fq2)
        ensures
            r@ == (Fq2View { c0: 1, c1: 0 }),
    {
        Fq2 { c0: Fq::one(), c1: Fq::zero() }
    }

    pub fn is_zero(&self) -> (r: bool)
        ensures
            r == (self@ == Fq2View { c0: 0, c1: 0 }),
    {
        self.c0.is_zero() && self.c1.is_zero()
    }

    pub fn add(&self, rhs: &Fq2) -> (r: Fq2)
        ensures
            r@ == fq2_add(self@, rhs@),
    {
        Fq2 { c0: self.c0.add(&rhs.c0), c1: self.c1.add(&rhs.c1) }
    }

    pub fn sub(&self, rhs: &Fq2) -> (r: Fq2)
        ensures
            r@ == fq2_sub(self@, rhs@),
    {
        Fq2 { c0: self.c0.sub(&rhs.c0), c1: self.c1.sub(&rhs.c1) }
    }

    pub fn neg(&self) -> (r: Fq2)
        ensures
            r@ == fq2_neg(self@),
    {
        Fq2 { c0: self.c0.neg(), c1: self.c1.neg() }
    }

    pub fn double(&self) -> (r: Fq2)
        ensures
            r@ == fq2_add(self@, self@),
    {
        self.add(self)
    }

    pub fn mul(&self, rhs: &Fq2) -> (r: Fq2)
        ensures
            r@ == fq2_mul(self@, rhs@),
    {
        Fq2 {
            c0: self.c0.mul(&rhs.c0).sub(&self.c1.mul(&rhs.c1)),
            c1: self.c0.mul(&rhs.c1).add(&self.c1.mul(&rhs.c0)),
        }
    }

    pub fn square(&self) -> (r: Fq2)
        ensures
            r@ == fq2_mul(self@, self@),
    {
        self.mul(self)
    }

    /// The product with an element of the base field.
    pub fn scale(&self, k: &Fq) -> (r: Fq2)
        ensures
            r@ == fq2_scale(self@, k@),
    {
        Fq2 { c0: self.c0.mul(k), c1: self.c1.mul(k) }
    }

    /// The product with the non-residue `9 + u`.
    pub fn mul_by_nonresidue(&self) -> (r: Fq2)
        ensures
            r@ == fq2_mul_by_nonresidue(self@),
    {
        let nine = Fq::from_u64(9);
        Fq2 {
            c0: self.c0.mul(&nine).sub(&self.c1),
            c1: self.c0.add(&self.c1.mul(&nine)),
        }
    }

    pub fn conjugate(&self) -> (r: Fq2)
        ensures
            r@ == fq2_conjugate(self@),
    {
        Fq2 { c0: self.c0, c1: self.c1.neg() }
    }

    /// The `power`-th power of the Frobenius map.
    pub fn frobenius_map(&self, power: usize) -> (r: Fq2)
        ensures
            r@ == fq2_frobenius(self@, power as nat),
    {
        if power % 2 == 1 {
            self.conjugate()
        } else {
            *self
        }
    }

    /// The multiplicative inverse, where the norm has one: the conjugate
    /// divided by the norm.
    pub fn invert(&self) -> (r: Option<Fq2>)
        ensures
            match r {
                Some(x) => exists|t: nat| #[trigger]
                    fq_is_inverse(fq2_norm(self@), t) && x@ == fq2_scale(fq2_conjugate(self@), t),
                None => !invertible(fq2_norm(self@), fq_modulus()),
            },
    {
        let norm = self.c0.square().add(&self.c1.square());
        match norm.invert() {
            Some(t) => {
                let r = self.conjugate().scale(&t);
                assert(fq_is_inverse(fq2_norm(self@), t@));
                Some(r)
            },
            None => None,
        }
    }
}

} // verus!
