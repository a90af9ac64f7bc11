//! The scalar field of BN254.

use crate::u256::add_mod;
use crate::u256::inv_mod;
use crate::u256::invertible;
use crate::u256::limb;
use crate::u256::mul_mod;
use crate::u256::neg_mod;
use crate::u256::sub_mod;
use crate::u256::U256;
use vstd::arithmetic::div_mod::lemma_mul_mod_noop_left;
use vstd::arithmetic::div_mod::lemma_mul_mod_noop_right;
use vstd::arithmetic::div_mod::lemma_small_mod;
use vstd::prelude::*;

verus! {

/// The order of the scalar field.
pub open spec fn fr_modulus() -> nat {
    0x30644e72e131a029b85045b68181585d2833e84879b9709143e1f593f0000001nat
}

pub const FR_MODULUS_HI: u128 = 0x30644e72e131a029b85045b68181585du128;

pub const FR_MODULUS_LO: u128 = 0x2833e84879b9709143e1f593f0000001u128;

/// Sum in the field.
pub open spec fn fr_add(a: nat, b: nat) -> nat {
    (a + b) % fr_modulus()
}

/// Difference in the field.
pub open spec fn fr_sub(a: nat, b: nat) -> nat {
    ((a - b) % (fr_modulus() as int)) as nat
}

/// Negation in the field.
pub open spec fn fr_neg(a: nat) -> nat {
    ((-(a as int)) % (fr_modulus() as int)) as nat
}

/// Product in the field.
pub open spec fn fr_mul(a: nat, b: nat) -> nat {
    (a * b) % fr_modulus()
}

/// `b` is the multiplicative inverse of `a`.
pub open spec fn fr_is_inverse(a: nat, b: nat) -> bool {
    fr_mul(a, b) == 1
}

/// The inverse of `a` where it has one, else zero.
pub open spec fn fr_inverse_or_zero(a: nat) -> nat {
    if exists|b: nat| b < fr_modulus() && fr_is_inverse(a, b) {
        choose|b: nat| b < fr_modulus() && fr_is_inverse(a, b)
    } else {
        0
    }
}

/// An element of the scalar field, held as its least non-negative residue.
#[derive(Clone, Copy, Debug, PartialEq, Eq, Structural)]
pub struct Fr {
    v: U256,
}

impl View for Fr {
    type V = nat;

    closed spec fn view(&self) -> nat {
        self.v.value()
    }
}

/// The modulus as a 256-bit integer.
fn modulus() -> (m: U256)
    ensures
        m.value() == fr_modulus(),
{
    U256 { hi: FR_MODULUS_HI, lo: FR_MODULUS_LO }
}

impl Fr {
    #[verifier::type_invariant]
    spec fn in_field(self) -> bool {
        self.v.value() < fr_modulus()
    }

    /// The element with residue `n`, for `n` below 2^256.
    pub closed spec fn from_nat(n: nat) -> Fr {
        Fr { v: U256 { hi: (n / limb()) as u128, lo: (n % limb()) as u128 } }
    }

    /// `from_nat` gives the element with the residue asked for.
    pub proof fn lemma_from_nat_view(n: nat)
        requires
            n < limb() * limb(),
        ensures
            Fr::from_nat(n)@ == n,
    {
        vstd::arithmetic::div_mod::lemma_fundamental_div_mod(n as int, limb() as int);
        assert(n / limb() < limb()) by (nonlinear_arith)
            requires
                n < limb() * limb(),
                limb() > 0,
                n as int == limb() * (n / limb()) + n % limb(),
                0 <= n % limb(),
        ;
    }

    /// Every element is `from_nat` of its residue.
    pub proof fn lemma_from_nat_of_view(self)
        ensures
            Fr::from_nat(self@) == self,
    {
        crate::u256::lemma_fundamental_div_mod_converse_nat(
            self.v.value(),
            limb(),
            self.v.hi as nat,
            self.v.lo as nat,
        );
    }

    /// The residue of every element is below 2^256.
    pub proof fn lemma_view_bounded(self)
        ensures
            self@ < limb() * limb(),
    {
        assert(self.v.hi as nat * limb() + (self.v.lo as nat) < limb() * limb()) by (nonlinear_arith)
            requires
                (self.v.hi as nat) < limb(),
                (self.v.lo as nat) < limb(),
        ;
    }

    /// Elements with the same residue are the same element.
    pub proof fn lemma_view_injective(self, other: Fr)
        requires
            self@ == other@,
        ensures
            self == other,
    {
        self.v.lemma_value_injective(other.v);
    }

    pub fn zero() -> (r: Fr)
        ensures
            r@ == 0,
    {
        Fr { v: U256::zero() }
    }

    pub fn one() -> (r: Fr)
        ensures
            r@ == 1,
    {
        Fr { v: U256::one() }
    }

    /// The element that stands for a 64-bit number.
    pub fn from_u64(x: u64) -> (r: Fr)
        ensures
            r@ == x,
    {
        Fr { v: U256::from_u128(x as u128) }
    }

    /// The element that stands for a 128-bit number.
    pub fn from_u128(x: u128) -> (r: Fr)
        ensures
            r@ == x,
    {
        Fr { v: U256::from_u128(x) }
    }

    /// The element whose residue has the given halves: `None` where that
    /// number is not below the modulus.
    pub fn from_halves(hi: u128, lo: u128) -> (r: Option<Fr>)
        ensures
            match r {
                Some(x) => x@ == hi as nat * limb() + lo as nat,
                None => hi as nat * limb() + lo as nat >= fr_modulus(),
            },
    {
        let v = U256 { hi, lo };
        if v.lt(&modulus()) {
            Some(Fr { v })
        } else {
            None
        }
    }

    /// The high and the low half of the residue.
    pub fn to_halves(&self) -> (r: (u128, u128))
        ensures
            self@ == r.0 as nat * limb() + r.1 as nat,
            self@ < fr_modulus(),
    {
        proof {
            use_type_invariant(self);
        }
        (self.v.hi, self.v.lo)
    }

    /// The low 128 bits of the residue.
    pub fn get_lower_128(&self) -> (r: u128)
        ensures
            r == self@ % limb(),
    {
        proof {
            crate::u256::lemma_fundamental_div_mod_converse_nat(
                self.v.value(),
                limb(),
                self.v.hi as nat,
                self.v.lo as nat,
            );
        }
        self.v.lo
    }

    /// The residue as a 64-bit number, where it is that small.
    pub fn to_u64(&self) -> (r: Option<u64>)
        ensures
            match r {
                Some(x) => self@ == x,
                None => self@ > u64::MAX,
            },
    {
        if self.v.hi == 0 && self.v.lo <= 0xffff_ffff_ffff_ffffu128 {
            Some(self.v.lo as u64)
        } else {
            None
        }
    }

    pub fn is_zero(&self) -> (r: bool)
        ensures
            r == (self@ == 0),
    {
        self.v.is_zero()
    }

    /// Order of the residues.
    pub fn lt(&self, other: &Fr) -> (r: bool)
        ensures
            r == (self@ < other@),
    {
        self.v.lt(&other.v)
    }

    pub fn add(&self, rhs: &Fr) -> (r: Fr)
        ensures
            r@ == fr_add(self@, rhs@),
    {
        proof {
            use_type_invariant(self);
            use_type_invariant(rhs);
        }
        Fr { v: add_mod(&self.v, &rhs.v, &modulus()) }
    }

    pub fn sub(&self, rhs: &Fr) -> (r: Fr)
        ensures
            r@ == fr_sub(self@, rhs@),
    {
        proof {
            use_type_invariant(self);
            use_type_invariant(rhs);
        }
        Fr { v: sub_mod(&self.v, &rhs.v, &modulus()) }
    }

    pub fn neg(&self) -> (r: Fr)
        ensures
            r@ == fr_neg(self@),
    {
        proof {
            use_type_invariant(self);
        }
        Fr { v: neg_mod(&self.v, &modulus()) }
    }

    pub fn double(&self) -> (r: Fr)
        ensures
            r@ == fr_add(self@, self@),
    {
        self.add(self)
    }

    pub fn mul(&self, rhs: &Fr) -> (r: Fr)
        ensures
            r@ == fr_mul(self@, rhs@),
    {
        proof {
            use_type_invariant(self);
        }
        Fr { v: mul_mod(&self.v, &rhs.v, &modulus()) }
    }

    pub fn square(&self) -> (r: Fr)
        ensures
            r@ == fr_mul(self@, self@),
    {
        self.mul(self)
    }

    /// The multiplicative inverse, where there is one.
    pub fn invert(&self) -> (r: Option<Fr>)
        ensures
            match r {
                Some(x) => fr_is_inverse(self@, x@),
                None => !invertible(self@, fr_modulus()),
            },
    {
        proof {
            use_type_invariant(self);
        }
        match inv_mod(&self.v, &modulus()) {
            Some(v) => Some(Fr { v }),
            None => None,
        }
    }
}

impl Fr {
    /// The multiplicative inverse, or zero where there is none.
    pub fn inverse_or_zero(&self) -> (r: Fr)
        ensures
            r@ == fr_inverse_or_zero(self@),
    {
        match self.invert() {
            Some(x) => {
                proof {
                    use_type_invariant(&x);
                    let c = choose|b: nat| b < fr_modulus() && fr_is_inverse(self@, b);
                    lemma_inverse_unique(self@, x@, c);
                }
                x
            },
            None => {
                proof {
                    assert forall|b: nat| !(b < fr_modulus() && fr_is_inverse(self@, b)) by {
                        if fr_is_inverse(self@, b) {
                            assert((self@ * b) % fr_modulus() == 1);
                        }
                    }
                }
                Fr::zero()
            },
        }
    }
}

/// An element has at most one inverse.
pub proof fn lemma_inverse_unique(a: nat, b: nat, c: nat)
    requires
        b < fr_modulus(),
        c < fr_modulus(),
        fr_is_inverse(a, b),
        fr_is_inverse(a, c),
    ensures
        b == c,
{
    let p = fr_modulus() as int;
    let ai = a as int;
    let bi = b as int;
    let ci = c as int;
    // b = b * (a * c) = (b * a) * c = c, modulo p
    lemma_mul_mod_noop_right(bi, ai * ci, p);
    lemma_mul_mod_noop_left(ai * bi, ci, p);
    assert(bi * (ai * ci) == (ai * bi) * ci) by (nonlinear_arith);
    assert(bi * 1 == bi && 1 * ci == ci);
    lemma_small_mod(b, fr_modulus());
    lemma_small_mod(c, fr_modulus());
}

impl Default for Fr {
    fn default() -> (r: Fr)
        ensures
            r@ == 0,
    {
        Fr::zero()
    }
}

} // verus!
