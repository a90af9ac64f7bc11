//! The base field of BN254.

use crate::u256::add_mod;
use crate::u256::inv_mod;
use crate::u256::invertible;
use crate::u256::limb;
use crate::u256::mul_mod;
use crate::u256::neg_mod;
use crate::u256::sub_mod;
use crate::u256::U256;
use vstd::prelude::*;

verus! {

/// The order of the base field.
pub open spec fn fq_modulus() -> nat {
    0x30644e72e131a029b85045b68181585d97816a916871ca8d3c208c16d87cfd47nat
}

pub const FQ_MODULUS_HI: u128 = 0x30644e72e131a029b85045b68181585du128;

pub const FQ_MODULUS_LO: u128 = 0x97816a916871ca8d3c208c16d87cfd47u128;

/// Sum in the field.
#[verifier::opaque]
pub open spec fn fq_add(a: nat, b: nat) -> nat {
    (a + b) % fq_modulus()
}

/// Difference in the field.
#[verifier::opaque]
pub open spec fn fq_sub(a: nat, b: nat) -> nat {
    ((a - b) % (fq_modulus() as int)) as nat
}

/// Negation in the field.
#[verifier::opaque]
pub open spec fn fq_neg(a: nat) -> nat {
    ((-(a as int)) % (fq_modulus() as int)) as nat
}

/// Product in the field.
#[verifier::opaque]
pub open spec fn fq_mul(a: nat, b: nat) -> nat {
    (a * b) % fq_modulus()
}

/// `b` is the multiplicative inverse of `a`.
pub open spec fn fq_is_inverse(a: nat, b: nat) -> bool {
    fq_mul(a, b) == 1
}

/// An element of the base field, held as its least non-negative residue.
#[derive(Clone, Copy, Debug, PartialEq, Eq, Structural)]
pub struct Fq {
    v: U256,
}

impl View for Fq {
    type V = nat;

    closed spec fn view(&self) -> nat {
        self.v.value()
    }
}

/// The modulus as a 256-bit integer.
fn modulus() -> (m: U256)
    ensures
        m.value() == fq_modulus(),
{
    U256 { hi: FQ_MODULUS_HI, lo: FQ_MODULUS_LO }
}

impl Fq {
    #[verifier::type_invariant]
    spec fn in_field(self) -> bool {
        self.v.value() < fq_modulus()
    }

    /// The element with residue `n`, for `n` below 2^256.
    pub closed spec fn from_nat(n: nat) -> Fq {
        Fq { v: U256 { hi: (n / limb()) as u128, lo: (n % limb()) as u128 } }
    }

    /// `from_nat` gives the element with the residue asked for.
    pub proof fn lemma_from_nat_view(n: nat)
        requires
            n < limb() * limb(),
        ensures
            Fq::from_nat(n)@ == n,
    {
        vstd::arithmetic::div_mod::lemma_fundamental_div_mod(n as int, limb() as int);
        assert(n / limb() < limb()) by (nonlinear_arith)
            requires
                n < limb() * limb(),
                limb() > 0,
                n as int == limb() * (n / limb()) + n % limb(),
                0 <= n % limb(),
        ;
    }

    /// Every element is `from_nat` of its residue.
    pub proof fn lemma_from_nat_of_view(self)
        ensures
            Fq::from_nat(self@) == self,
    {
        crate::u256::lemma_fundamental_div_mod_converse_nat(
            self.v.value(),
            limb(),
            self.v.hi as nat,
            self.v.lo as nat,
        );
    }

    /// Elements with the same residue are the same element.
    pub proof fn lemma_view_injective(self, other: Fq)
        requires
            self@ == other@,
        ensures
            self == other,
    {
        self.v.lemma_value_injective(other.v);
    }

    pub fn zero() -> (r: Fq)
        ensures
            r@ == 0,
    {
        Fq { v: U256::zero() }
    }

    pub fn one() -> (r: Fq)
        ensures
            r@ == 1,
    {
        Fq { v: U256::one() }
    }

    /// The element that stands for a 64-bit number.
    pub fn from_u64(x: u64) -> (r: Fq)
        ensures
            r@ == x,
    {
        Fq { v: U256::from_u128(x as u128) }
    }

    /// The element that stands for a 128-bit number.
    pub fn from_u128(x: u128) -> (r: Fq)
        ensures
            r@ == x,
    {
        Fq { v: U256::from_u128(x) }
    }

    /// The element whose residue has the given halves: `None` where that
    /// number is not below the modulus.
    pub fn from_halves(hi: u128, lo: u128) -> (r: Option<Fq>)
        ensures
            match r {
                Some(x) => x@ == hi as nat * limb() + lo as nat,
                None => hi as nat * limb() + lo as nat >= fq_modulus(),
            },
    {
        let v = U256 { hi, lo };
        if v.lt(&modulus()) {
            Some(Fq { v })
        } else {
            None
        }
    }

    /// The element whose residue has the given halves, for a number below
    /// the modulus.
    pub fn from_halves_below(hi: u128, lo: u128) -> (r: Fq)
        requires
            hi as nat * limb() + (lo as nat) < fq_modulus(),
        ensures
            r@ == hi as nat * limb() + lo as nat,
    {
        Fq { v: U256 { hi, lo } }
    }

    /// The high and the low half of the residue.
    pub fn to_halves(&self) -> (r: (u128, u128))
        ensures
            self@ == r.0 as nat * limb() + r.1 as nat,
            self@ < fq_modulus(),
    {
        proof {
            use_type_invariant(self);
        }
        (self.v.hi, self.v.lo)
    }

    /// The low 128 bits of the residue.
    pub fn get_lower_128(&self) -> (r: u128)
        ensures
            r == self@ % limb(),
    {
        proof {
            crate::u256::lemma_fundamental_div_mod_converse_nat(
                self.v.value(),
                limb(),
                self.v.hi as nat,
                self.v.lo as nat,
            );
        }
        self.v.lo
    }

    /// The residue as a 64-bit number, where it is that small.
    pub fn to_u64(&self) -> (r: Option<u64>)
        ensures
            match r {
                Some(x) => self@ == x,
                None => self@ > u64::MAX,
            },
    {
        if self.v.hi == 0 && self.v.lo <= 0xffff_ffff_ffff_ffffu128 {
            Some(self.v.lo as u64)
        } else {
            None
        }
    }

    pub fn is_zero(&self) -> (r: bool)
        ensures
            r == (self@ == 0),
    {
        self.v.is_zero()
    }

    /// Order of the residues.
    pub fn lt(&self, other: &Fq) -> (r: bool)
        ensures
            r == (self@ < other@),
    {
        self.v.lt(&other.v)
    }

    pub fn add(&self, rhs: &Fq) -> (r: Fq)
        ensures
            r@ == fq_add(self@, rhs@),
    {
        proof {
            use_type_invariant(self);
            use_type_invariant(rhs);
            reveal(fq_add);
        }
        Fq { v: add_mod(&self.v, &rhs.v, &modulus()) }
    }

    pub fn sub(&self, rhs: &Fq) -> (r: Fq)
        ensures
            r@ == fq_sub(self@, rhs@),
    {
        proof {
            use_type_invariant(self);
            use_type_invariant(rhs);
            reveal(fq_sub);
        }
        Fq { v: sub_mod(&self.v, &rhs.v, &modulus()) }
    }

    pub fn neg(&self) -> (r: Fq)
        ensures
            r@ == fq_neg(self@),
    {
        proof {
            use_type_invariant(self);
            reveal(fq_neg);
        }
        Fq { v: neg_mod(&self.v, &modulus()) }
    }

    pub fn double(&self) -> (r: Fq)
        ensures
            r@ == fq_add(self@, self@),
    {
        self.add(self)
    }

    pub fn mul(&self, rhs: &Fq) -> (r: Fq)
        ensures
            r@ == fq_mul(self@, rhs@),
    {
        proof {
            use_type_invariant(self);
            reveal(fq_mul);
        }
        Fq { v: mul_mod(&self.v, &rhs.v, &modulus()) }
    }

    pub fn square(&self) -> (r: Fq)
        ensures
            r@ == fq_mul(self@, self@),
    {
        self.mul(self)
    }

    /// The multiplicative inverse, where there is one.
    pub fn invert(&self) -> (r: Option<Fq>)
        ensures
            match r {
                Some(x) => fq_is_inverse(self@, x@),
                None => !invertible(self@, fq_modulus()),
            },
    {
        proof {
            use_type_invariant(self);
            reveal(fq_mul);
        }
        match inv_mod(&self.v, &modulus()) {
            Some(v) => Some(Fq { v }),
            None => None,
        }
    }
}

impl Default for Fq {
    fn default() -> (r: Fq)
        ensures
            r@ == 0,
    {
        Fq::zero()
    }
}

} // verus!
