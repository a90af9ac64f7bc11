//! The quadratic extension of `Fq6`: `Fq6[w] / (w^2 - v)`.

use crate::bn256::fq::fq_modulus;
use crate::bn256::fq2::fq2_add;
use crate::bn256::fq2::fq2_mul;
use crate::bn256::fq2::fq2_mul_by_nonresidue;
use crate::bn256::fq2::fq2_norm;
use crate::bn256::fq2::fq2_sub;
use crate::bn256::fq2::Fq2;
use crate::bn256::fq2::Fq2View;
use crate::bn256::fq6::fq6_add;
use crate::bn256::fq6::fq6_frobenius;
use crate::bn256::fq6::fq6_inverted;
use crate::bn256::fq6::fq6_mul;
use crate::bn256::fq6::fq6_mul_by_01;
use crate::bn256::fq6::fq6_mul_by_1;
use crate::bn256::fq6::fq6_mul_by_nonresidue;
use crate::bn256::fq6::fq6_neg;
use crate::bn256::fq6::fq6_norm;
use crate::bn256::fq6::fq6_scale;
use crate::bn256::fq6::fq6_sub;
use crate::bn256::fq6::fq2_zero;
use crate::bn256::fq6::Fq6;
use crate::bn256::fq6::Fq6View;
use crate::bn256::frobenius::frobenius_coeff_fq12_c1;
use crate::bn256::frobenius::frobenius_coeff_fq12_c1_of;
use crate::u256::invertible;
use vstd::prelude::*;

verus! {

/// An element `c0 + c1 * w` as a pair.
pub struct Fq12View {
    pub c0: Fq6View,
    pub c1: Fq6View,
}

/// Sum, coefficient by coefficient.
pub open spec fn fq12_add(a: Fq12View, b: Fq12View) -> Fq12View {
    Fq12View { c0: fq6_add(a.c0, b.c0), c1: fq6_add(a.c1, b.c1) }
}

/// Difference, coefficient by coefficient.
pub open spec fn fq12_sub(a: Fq12View, b: Fq12View) -> Fq12View {
    Fq12View { c0: fq6_sub(a.c0, b.c0), c1: fq6_sub(a.c1, b.c1) }
}

/// Negation, coefficient by coefficient.
pub open spec fn fq12_neg(a: Fq12View) -> Fq12View {
    Fq12View { c0: fq6_neg(a.c0), c1: fq6_neg(a.c1) }
}

/// The conjugate `c0 - c1 * w`.
pub open spec fn fq12_conjugate(a: Fq12View) -> Fq12View {
    Fq12View { c0: a.c0, c1: fq6_neg(a.c1) }
}

/// Product, with `w^2 = v`: `(a0 b0 + v a1 b1) + m w`, where the mixed term
/// `m` is taken as `(a1 + a0)(b0 + b1) - a0 b0 - a1 b1`.
pub open spec fn fq12_mul(a: Fq12View, b: Fq12View) -> Fq12View {
    let t0 = fq6_mul(a.c0, b.c0);
    let t1 = fq6_mul(a.c1, b.c1);
    Fq12View {
        c0: fq6_add(t0, fq6_mul_by_nonresidue(t1)),
        c1: fq6_sub(fq6_sub(fq6_mul(fq6_add(a.c1, a.c0), fq6_add(b.c0, b.c1)), t0), t1),
    }
}

/// Square: `((v a1 + a0)(a0 + a1) - a0 a1 - v a0 a1) + 2 a0 a1 w`.
pub open spec fn fq12_square(a: Fq12View) -> Fq12View {
    let ab = fq6_mul(a.c0, a.c1);
    Fq12View {
        c0: fq6_sub(
            fq6_sub(
                fq6_mul(fq6_add(fq6_mul_by_nonresidue(a.c1), a.c0), fq6_add(a.c0, a.c1)),
                ab,
            ),
            fq6_mul_by_nonresidue(ab),
        ),
        c1: fq6_add(ab, ab),
    }
}

/// The `power`-th power of the Frobenius map: that of each coefficient,
/// times a power of the non-residue for `c1`.
pub open spec fn fq12_frobenius(a: Fq12View, power: nat) -> Fq12View {
    Fq12View {
        c0: fq6_frobenius(a.c0, power),
        c1: fq6_scale(fq6_frobenius(a.c1, power), frobenius_coeff_fq12_c1((power % 12) as int)),
    }
}

/// Product with the sparse element `(b0 + b1 v) + (b4 v) w`.
pub open spec fn fq12_mul_by_014(a: Fq12View, b0: Fq2View, b1: Fq2View, b4: Fq2View) -> Fq12View {
    let aa = fq6_mul_by_01(a.c0, b0, b1);
    let bb = fq6_mul_by_1(a.c1, b4);
    Fq12View {
        c0: fq6_add(fq6_mul_by_nonresidue(bb), aa),
        c1: fq6_sub(fq6_sub(fq6_mul_by_01(fq6_add(a.c1, a.c0), b0, fq2_add(b1, b4)), aa), bb),
    }
}

/// Product with the sparse element `b0 + (b3 + b4 v) w`.
pub open spec fn fq12_mul_by_034(a: Fq12View, b0: Fq2View, b3: Fq2View, b4: Fq2View) -> Fq12View {
    let t0 = fq6_scale(a.c0, b0);
    let t1 = fq6_mul_by_01(a.c1, b3, b4);
    Fq12View {
        c0: fq6_add(t0, fq6_mul_by_nonresidue(t1)),
        c1: fq6_sub(fq6_sub(fq6_mul_by_01(fq6_add(a.c0, a.c1), fq2_add(b0, b3), b4), t0), t1),
    }
}

/// The norm to `Fq6`: `a0^2 - v a1^2`.
pub open spec fn fq12_norm(a: Fq12View) -> Fq6View {
    fq6_sub(fq6_mul(a.c0, a.c0), fq6_mul_by_nonresidue(fq6_mul(a.c1, a.c1)))
}

/// The square of `a0 + a1 * s` in `Fq2[s] / (s^2 - xi)`, as the pair of its
/// coefficients: `xi a1^2 + a0^2` and `(a0 + a1)^2 - a0^2 - a1^2`.
pub open spec fn fp4_squared(a0: Fq2View, a1: Fq2View) -> (Fq2View, Fq2View) {
    let t0 = fq2_mul(a0, a0);
    let t1 = fq2_mul(a1, a1);
    let s = fq2_add(a0, a1);
    (fq2_add(fq2_mul_by_nonresidue(t1), t0), fq2_sub(fq2_sub(fq2_mul(s, s), t0), t1))
}

/// `2 (x - y) + x`.
pub open spec fn triple_minus(x: Fq2View, y: Fq2View) -> Fq2View {
    let t = fq2_sub(x, y);
    fq2_add(fq2_add(t, t), x)
}

/// `2 (x + y) + x`.
pub open spec fn triple_plus(x: Fq2View, y: Fq2View) -> Fq2View {
    let t = fq2_add(x, y);
    fq2_add(fq2_add(t, t), x)
}

/// The square of an element of the cyclotomic subgroup, by three squarings
/// in the quartic subfields.
pub open spec fn fq12_cyclotomic_square(a: Fq12View) -> Fq12View {
    let (t3, t4) = fp4_squared(a.c0.c0, a.c1.c1);
    let (u3, u4) = fp4_squared(a.c1.c0, a.c0.c2);
    let (t5, t6) = fp4_squared(a.c0.c1, a.c1.c2);
    Fq12View {
        c0: Fq6View {
            c0: triple_minus(t3, a.c0.c0),
            c1: triple_minus(u3, a.c0.c1),
            c2: triple_minus(t5, a.c0.c2),
        },
        c1: Fq6View {
            c0: triple_plus(fq2_mul_by_nonresidue(t6), a.c1.c0),
            c1: triple_plus(t4, a.c1.c1),
            c2: triple_plus(u4, a.c1.c2),
        },
    }
}

/// The square of `a0 + a1 * s` in `Fq2[s] / (s^2 - xi)`.
pub fn fp4_square(a0: &Fq2, a1: &Fq2) -> (r: (Fq2, Fq2))
    ensures
        (r.0@, r.1@) == fp4_squared(a0@, a1@),
{
    let t0 = a0.square();
    let t1 = a1.square();
    let c0 = t1.mul_by_nonresidue().add(&t0);
    let c1 = a0.add(a1).square().sub(&t0).sub(&t1);
    (c0, c1)
}

/// An element of the twelfth-degree extension, `c0 + c1 * w`.
#[derive(Clone, Copy, Debug, PartialEq, Eq, Structural)]
pub struct Fq12 {
    pub c0: Fq6,
    pub c1: Fq6,
}

impl View for Fq12 {
    type V = Fq12View;

    open spec fn view(&self) -> Fq12View {
        Fq12View { c0: self.c0@, c1: self.c1@ }
    }
}

impl Default for Fq12 {
    fn default() -> (r: Fq12)
        ensures
            r@.c0 == Fq6::zero_view(),
            r@.c1 == Fq6::zero_view(),
    {
        Fq12::zero()
    }
}

impl Fq6 {
    /// The zero of `Fq6`, as a view.
    pub open spec fn zero_view() -> Fq6View {
        Fq6View { c0: fq2_zero(), c1: fq2_zero(), c2: fq2_zero() }
    }

    /// The one of `Fq6`, as a view.
    pub open spec fn one_view() -> Fq6View {
        Fq6View { c0: Fq2View { c0: 1, c1: 0 }, c1: fq2_zero(), c2: fq2_zero() }
    }
}

impl Fq12 {
    pub fn zero() -> (r: Fq12)
        ensures
            r@.c0 == Fq6::zero_view(),
            r@.c1 == Fq6::zero_view(),
    {
        Fq12 { c0: Fq6::zero(), c1: Fq6::zero() }
    }

    pub fn one() -> (r: Fq12)
        ensures
            r@.c0 == Fq6::one_view(),
            r@.c1 == Fq6::zero_view(),
    {
        Fq12 { c0: Fq6::one(), c1: Fq6::zero() }
    }

    pub fn is_zero(&self) -> (r: bool)
        ensures
            r == (self@.c0 == Fq6::zero_view() && self@.c1 == Fq6::zero_view()),
    {
        self.c0.is_zero() && self.c1.is_zero()
    }

    pub fn mul_assign(&mut self, other: &Self)
        ensures
            final(self)@ == fq12_mul(old(self)@, other@),
    {
        let t0 = self.c0.mul(&other.c0);
        let t1 = self.c1.mul(&other.c1);
        let t2 = other.c0.add(&other.c1);
        self.c1 = self.c1.add(&self.c0).mul(&t2).sub(&t0).sub(&t1);
        self.c0 = t0.add(&t1.mul_by_nonresidue());
    }

    pub fn square_assign(&mut self)
        ensures
            final(self)@ == fq12_square(old(self)@),
    {
        let ab = self.c0.mul(&self.c1);
        let c0c1 = self.c0.add(&self.c1);
        let c0 = self.c1.mul_by_nonresidue().add(&self.c0).mul(&c0c1).sub(&ab);
        self.c1 = ab.add(&ab);
        self.c0 = c0.sub(&ab.mul_by_nonresidue());
    }

    pub fn double(&self) -> (r: Self)
        ensures
            r@ == fq12_add(self@, self@),
    {
        Self { c0: self.c0.double(), c1: self.c1.double() }
    }

    pub fn double_assign(&mut self)
        ensures
            final(self)@ == fq12_add(old(self)@, old(self)@),
    {
        self.c0 = self.c0.double();
        self.c1 = self.c1.double();
    }

    pub fn add(&self, other: &Self) -> (r: Self)
        ensures
            r@ == fq12_add(self@, other@),
    {
        Self { c0: self.c0.add(&other.c0), c1: self.c1.add(&other.c1) }
    }

    pub fn sub(&self, other: &Self) -> (r: Self)
        ensures
            r@ == fq12_sub(self@, other@),
    {
        Self { c0: self.c0.sub(&other.c0), c1: self.c1.sub(&other.c1) }
    }

    pub fn mul(&self, other: &Self) -> (r: Self)
        ensures
            r@ == fq12_mul(other@, self@),
    {
        let mut t = *other;
        t.mul_assign(self);
        t
    }

    pub fn square(&self) -> (r: Self)
        ensures
            r@ == fq12_square(self@),
    {
        let mut t = *self;
        t.square_assign();
        t
    }

    pub fn neg(&self) -> (r: Self)
        ensures
            r@ == fq12_neg(self@),
    {
        Self { c0: self.c0.neg(), c1: self.c1.neg() }
    }

    pub fn conjugate(&mut self)
        ensures
            final(self)@ == fq12_conjugate(old(self)@),
    {
        self.c1 = self.c1.neg();
    }

    pub fn frobenius_map(&mut self, power: usize)
        ensures
            final(self)@ == fq12_frobenius(old(self)@, power as nat),
    {
        self.c0 = self.c0.frobenius_map(power);
        self.c1 = self.c1.frobenius_map(power).scale(&frobenius_coeff_fq12_c1_of(power % 12));
    }

    pub fn mul_by_014(&mut self, c0: &Fq2, c1: &Fq2, c4: &Fq2)
        ensures
            final(self)@ == fq12_mul_by_014(old(self)@, c0@, c1@, c4@),
    {
        let aa = self.c0.mul_by_01(c0, c1);
        let bb = self.c1.mul_by_1(c4);
        let o = c1.add(c4);
        self.c1 = self.c1.add(&self.c0).mul_by_01(c0, &o).sub(&aa).sub(&bb);
        self.c0 = bb.mul_by_nonresidue().add(&aa);
    }

    pub fn mul_by_034(&mut self, c0: &Fq2, c3: &Fq2, c4: &Fq2)
        ensures
            final(self)@ == fq12_mul_by_034(old(self)@, c0@, c3@, c4@),
    {
        let t0 = self.c0.scale(c0);
        let t1 = self.c1.mul_by_01(c3, c4);
        let o = c0.add(c3);
        let t2 = self.c0.add(&self.c1).mul_by_01(&o, c4).sub(&t0);
        self.c1 = t2.sub(&t1);
        self.c0 = t0.add(&t1.mul_by_nonresidue());
    }

    /// The multiplicative inverse, where the norm has one: the conjugate
    /// times the inverse of the norm.
    pub fn invert(&self) -> (r: Option<Self>)
        ensures
            match r {
                Some(x) => exists|t: Fq6View| #[trigger]
                    fq6_inverted(fq12_norm(self@), t) && x@ == (Fq12View {
                        c0: fq6_mul(t, self@.c0),
                        c1: fq6_neg(fq6_mul(t, self@.c1)),
                    }),
                None => !invertible(fq2_norm(fq6_norm(fq12_norm(self@))), fq_modulus()),
            },
    {
        let c0s = self.c0.square().sub(&self.c1.square().mul_by_nonresidue());
        match c0s.invert() {
            Some(t) => {
                let r = Fq12 { c0: t.mul(&self.c0), c1: t.mul(&self.c1).neg() };
                assert(fq6_inverted(fq12_norm(self@), t@));
                Some(r)
            },
            None => None,
        }
    }

    pub fn cyclotomic_square(&mut self)
        ensures
            final(self)@ == fq12_cyclotomic_square(old(self)@),
    {
        let (t3, t4) = fp4_square(&self.c0.c0, &self.c1.c1);
        let (u3, u4) = fp4_square(&self.c1.c0, &self.c0.c2);
        let (t5, t6) = fp4_square(&self.c0.c1, &self.c1.c2);
        let a = *self;
        self.c0.c0 = t3.sub(&a.c0.c0).double().add(&t3);
        self.c1.c1 = t4.add(&a.c1.c1).double().add(&t4);
        self.c0.c1 = u3.sub(&a.c0.c1).double().add(&u3);
        self.c1.c2 = u4.add(&a.c1.c2).double().add(&u4);
        let t = t6.mul_by_nonresidue();
        self.c1.c0 = t.add(&a.c1.c0).double().add(&t);
        self.c0.c2 = t5.sub(&a.c0.c2).double().add(&t5);
    }
}

} // verus!
