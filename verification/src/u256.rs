//! Unsigned 256-bit integers and arithmetic modulo an odd modulus below 2^255.
//!
//! A number is held as two 128-bit halves. Every operation is specified over
//! the natural number the halves stand for.

use vstd::arithmetic::div_mod::lemma_add_mod_noop;
use vstd::arithmetic::div_mod::lemma_fundamental_div_mod;
use vstd::arithmetic::div_mod::lemma_mod_multiples_vanish;
use vstd::arithmetic::div_mod::lemma_mul_mod_noop;
use vstd::arithmetic::div_mod::lemma_small_mod;
use vstd::arithmetic::div_mod::lemma_sub_mod_noop;
use vstd::prelude::*;

verus! {

/// 2^128, the weight of the high half.
pub open spec fn limb() -> nat {
    0x1_0000_0000_0000_0000_0000_0000_0000_0000nat
}

/// 2^255, the bound every modulus stays under.
pub open spec fn modulus_bound() -> nat {
    0x8000_0000_0000_0000_0000_0000_0000_0000_0000_0000_0000_0000_0000_0000_0000_0000nat
}

/// `x` and `y` leave the same remainder modulo `m`.
pub open spec fn congruent(x: int, y: int, m: int) -> bool {
    x % m == y % m
}

/// `d` divides `x`.
pub open spec fn divides(d: nat, x: nat) -> bool {
    d > 0 && x % d == 0
}

/// `m` can serve as a modulus: odd, above one and below 2^255.
pub open spec fn valid_modulus(m: nat) -> bool {
    &&& 1 < m < modulus_bound()
    &&& m % 2 == 1
}

/// `a` has a multiplicative inverse modulo `m`.
pub open spec fn invertible(a: nat, m: nat) -> bool {
    exists|y: nat| #[trigger] ((a * y) % m) == 1
}

/// An unsigned 256-bit integer, `hi * 2^128 + lo`.
#[derive(Clone, Copy, Debug, PartialEq, Eq, Structural)]
pub struct U256 {
    pub hi: u128,
    pub lo: u128,
}

impl U256 {
    /// The number this value stands for.
    pub open spec fn value(self) -> nat {
        self.hi as nat * limb() + self.lo as nat
    }

    /// Two values with the same number have the same halves.
    pub proof fn lemma_value_injective(self, other: U256)
        requires
            self.value() == other.value(),
        ensures
            self == other,
    {
        assert(self.lo as nat == self.value() % limb()) by {
            lemma_fundamental_div_mod_converse_nat(self.value(), limb(), self.hi as nat, self.lo as nat);
        }
        assert(other.lo as nat == other.value() % limb()) by {
            lemma_fundamental_div_mod_converse_nat(other.value(), limb(), other.hi as nat, other.lo as nat);
        }
    }

    pub fn zero() -> (r: U256)
        ensures
            r.value() == 0,
    {
        U256 { hi: 0, lo: 0 }
    }

    pub fn one() -> (r: U256)
        ensures
            r.value() == 1,
    {
        U256 { hi: 0, lo: 1 }
    }

    pub fn from_u128(x: u128) -> (r: U256)
        ensures
            r.value() == x,
    {
        U256 { hi: 0, lo: x }
    }

    pub fn is_zero(&self) -> (r: bool)
        ensures
            r == (self.value() == 0),
    {
        self.hi == 0 && self.lo == 0
    }

    pub fn is_one(&self) -> (r: bool)
        ensures
            r == (self.value() == 1),
    {
        self.hi == 0 && self.lo == 1
    }

    pub fn is_even(&self) -> (r: bool)
        ensures
            r == (self.value() % 2 == 0),
    {
        self.lo % 2 == 0
    }

    /// Strict order of the numbers.
    pub fn lt(&self, other: &U256) -> (r: bool)
        ensures
            r == (self.value() < other.value()),
    {
        self.hi < other.hi || (self.hi == other.hi && self.lo < other.lo)
    }

    /// Half of the number, rounded down.
    pub fn half(&self) -> (r: U256)
        ensures
            r.value() == self.value() / 2,
    {
        let carry: u128 = if self.hi % 2 == 1 {
            0x8000_0000_0000_0000_0000_0000_0000_0000u128
        } else {
            0u128
        };
        U256 { hi: self.hi / 2, lo: self.lo / 2 + carry }
    }

    /// The sum, where it fits in 256 bits.
    pub fn add_raw(&self, other: &U256) -> (r: U256)
        requires
            self.value() + other.value() < limb() * limb(),
        ensures
            r.value() == self.value() + other.value(),
    {
        let lo = self.lo.wrapping_add(other.lo);
        let carry: u128 = if lo < self.lo {
            1
        } else {
            0
        };
        assert(self.hi + other.hi + carry < limb()) by (nonlinear_arith)
            requires
                self.hi as nat * limb() + self.lo as nat + other.hi as nat * limb() + (
                other.lo as nat) < limb() * limb(),
                self.lo as nat + other.lo as nat >= carry as nat * limb(),
                carry <= 1,
        ;
        U256 { hi: self.hi + other.hi + carry, lo }
    }

    /// The difference, where it is not negative.
    pub fn sub_raw(&self, other: &U256) -> (r: U256)
        requires
            self.value() >= other.value(),
        ensures
            r.value() == self.value() - other.value(),
    {
        let lo = self.lo.wrapping_sub(other.lo);
        let borrow: u128 = if self.lo < other.lo {
            1
        } else {
            0
        };
        assert(self.hi as int - other.hi as int - borrow as int >= 0) by (nonlinear_arith)
            requires
                self.hi as nat * limb() + self.lo as nat >= other.hi as nat * limb()
                    + other.lo as nat,
                borrow == 1 ==> self.lo < other.lo,
                borrow == 0 || borrow == 1,
                self.lo < limb(),
                other.lo < limb(),
        ;
        U256 { hi: self.hi - other.hi - borrow, lo }
    }
}

/// Uniqueness of quotient and remainder over the naturals.
pub proof fn lemma_fundamental_div_mod_converse_nat(x: nat, d: nat, q: nat, r: nat)
    requires
        d > 0,
        r < d,
        x == q * d + r,
    ensures
        r == x % d,
        q == x / d,
{
    vstd::arithmetic::div_mod::lemma_fundamental_div_mod_converse(
        x as int,
        d as int,
        q as int,
        r as int,
    );
}

/// A product is congruent to the product of congruent factors.
pub proof fn lemma_congruent_mul(a: int, b: int, c: int, d: int, m: int)
    requires
        m > 0,
        congruent(a, b, m),
        congruent(c, d, m),
    ensures
        congruent(a * c, b * d, m),
{
    lemma_mul_mod_noop(a, c, m);
    lemma_mul_mod_noop(b, d, m);
}

/// A sum is congruent to the sum of congruent terms.
pub proof fn lemma_congruent_add(a: int, b: int, c: int, d: int, m: int)
    requires
        m > 0,
        congruent(a, b, m),
        congruent(c, d, m),
    ensures
        congruent(a + c, b + d, m),
{
    lemma_add_mod_noop(a, c, m);
    lemma_add_mod_noop(b, d, m);
}

/// A difference is congruent to the difference of congruent terms.
pub proof fn lemma_congruent_sub(a: int, b: int, c: int, d: int, m: int)
    requires
        m > 0,
        congruent(a, b, m),
        congruent(c, d, m),
    ensures
        congruent(a - c, b - d, m),
{
    lemma_sub_mod_noop(a, c, m);
    lemma_sub_mod_noop(b, d, m);
}

/// A number is congruent to its remainder.
pub proof fn lemma_congruent_mod(a: int, m: int)
    requires
        m > 0,
    ensures
        congruent(a % m, a, m),
{
    vstd::arithmetic::div_mod::lemma_mod_twice(a, m);
}

/// Modulo an odd number, a congruence may be halved on both sides.
pub proof fn lemma_congruent_halve(x: int, y: int, m: int)
    requires
        m > 0,
        m % 2 == 1,
        congruent(2 * x, 2 * y, m),
    ensures
        congruent(x, y, m),
{
    let t = x - y;
    lemma_sub_mod_noop(2 * x, 2 * y, m);
    assert((2 * x - 2 * y) % m == 0) by {
        lemma_small_mod(0, m as nat);
    }
    assert(2 * t == 2 * x - 2 * y);
    lemma_fundamental_div_mod(2 * t, m);
    let k = (2 * t) / m;
    assert(2 * t == m * k);
    let a = m / 2;
    assert(m * k == 2 * (a * k) + k) by (nonlinear_arith)
        requires
            m == 2 * a + 1,
    ;
    assert(k == 2 * (t - a * k));
    let h = k / 2;
    assert(t == m * h) by (nonlinear_arith)
        requires
            2 * t == m * k,
            k == 2 * h,
    ;
    assert(x == m * h + y);
    lemma_mod_multiples_vanish(h, y, m);
}

/// Where a common divisor above one divides both `a` and `m`, `a` has no
/// inverse modulo `m`.
pub proof fn lemma_common_divisor_no_inverse(a: nat, m: nat, g: nat)
    requires
        m > 0,
        g > 1,
        divides(g, a),
        divides(g, m),
    ensures
        !invertible(a, m),
{
    assert forall|y: nat| #[trigger] ((a * y) % m) != 1 by {
        if (a * y) % m == 1 {
            let p = (a * y) as int;
            lemma_fundamental_div_mod(p, m as int);
            let k = p / (m as int);
            lemma_fundamental_div_mod(a as int, g as int);
            lemma_fundamental_div_mod(m as int, g as int);
            let qa = (a as int) / (g as int);
            let qm = (m as int) / (g as int);
            assert(a as int == g * qa);
            assert(m as int == g * qm);
            assert(p == g * (qa * y)) by (nonlinear_arith)
                requires
                    p == a * y,
                    a as int == g * qa,
            ;
            assert(m * k == g * (qm * k)) by (nonlinear_arith)
                requires
                    m as int == g * qm,
            ;
            let w = qa * y - qm * k;
            assert(1 == g * w) by (nonlinear_arith)
                requires
                    p == g * (qa * y),
                    m * k == g * (qm * k),
                    p == m * k + 1,
                    w == qa * y - qm * k,
            ;
            assert(false) by (nonlinear_arith)
                requires
                    1 == g * w,
                    g > 1,
            ;
        }
    }
}

/// `(a + b) mod m`.
pub fn add_mod(a: &U256, b: &U256, m: &U256) -> (r: U256)
    requires
        0 < m.value() < modulus_bound(),
        a.value() < m.value(),
        b.value() < m.value(),
    ensures
        r.value() == (a.value() + b.value()) % m.value(),
        r.value() < m.value(),
{
    let s = a.add_raw(b);
    if s.lt(m) {
        proof {
            lemma_small_mod(s.value(), m.value());
        }
        s
    } else {
        let r = s.sub_raw(m);
        proof {
            lemma_small_mod(r.value(), m.value());
            lemma_mod_multiples_vanish(1, r.value() as int, m.value() as int);
        }
        r
    }
}

/// `(a - b) mod m`, the remainder taken not negative.
pub fn sub_mod(a: &U256, b: &U256, m: &U256) -> (r: U256)
    requires
        0 < m.value() < modulus_bound(),
        a.value() < m.value(),
        b.value() < m.value(),
    ensures
        r.value() == (a.value() - b.value()) % (m.value() as int),
        r.value() < m.value(),
{
    if b.lt(a) || (a.hi == b.hi && a.lo == b.lo) {
        let r = a.sub_raw(b);
        proof {
            lemma_small_mod(r.value(), m.value());
        }
        r
    } else {
        let t = m.sub_raw(b);
        let r = a.add_raw(&t);
        proof {
            lemma_small_mod(r.value(), m.value());
            lemma_mod_multiples_vanish(1, a.value() - b.value(), m.value() as int);
        }
        r
    }
}

/// `(-a) mod m`.
pub fn neg_mod(a: &U256, m: &U256) -> (r: U256)
    requires
        0 < m.value() < modulus_bound(),
        a.value() < m.value(),
    ensures
        r.value() == (-(a.value() as int)) % (m.value() as int),
        r.value() < m.value(),
{
    let z = U256::zero();
    sub_mod(&z, a, m)
}

/// `(a * b) mod m`, by doubling and adding along the bits of `b`.
pub fn mul_mod(a: &U256, b: &U256, m: &U256) -> (r: U256)
    requires
        0 < m.value() < modulus_bound(),
        a.value() < m.value(),
    ensures
        r.value() == (a.value() * b.value()) % m.value(),
        r.value() < m.value(),
{
    let mut acc = U256::zero();
    let mut base = *a;
    let mut k = *b;
    proof {
        lemma_small_mod(0, m.value());
    }
    while !k.is_zero()
        invariant
            0 < m.value() < modulus_bound(),
            acc.value() < m.value(),
            base.value() < m.value(),
            congruent(
                (acc.value() + base.value() * k.value()) as int,
                (a.value() * b.value()) as int,
                m.value() as int,
            ),
        decreases k.value(),
    {
        let ghost acc0 = acc.value() as int;
        let ghost base0 = base.value() as int;
        let ghost k0 = k.value() as int;
        let ghost mm = m.value() as int;
        let odd = !k.is_even();
        if odd {
            acc = add_mod(&acc, &base, m);
        }
        base = add_mod(&base, &base, m);
        k = k.half();
        proof {
            let bit: int = if odd { 1 } else { 0 };
            let k1 = k.value() as int;
            assert(k0 == 2 * k1 + bit);
            assert(congruent(acc.value() as int, acc0 + bit * base0, mm)) by {
                if odd {
                    lemma_congruent_mod(acc0 + base0, mm);
                }
            }
            assert(congruent(base.value() as int, 2 * base0, mm)) by {
                lemma_congruent_mod(base0 + base0, mm);
            }
            lemma_congruent_mul(base.value() as int, 2 * base0, k1, k1, mm);
            lemma_congruent_add(
                acc.value() as int,
                acc0 + bit * base0,
                base.value() * k1,
                (2 * base0) * k1,
                mm,
            );
            assert(acc0 + bit * base0 + (2 * base0) * k1 == acc0 + base0 * k0) by (nonlinear_arith)
                requires
                    k0 == 2 * k1 + bit,
            ;
        }
    }
    proof {
        assert(base.value() * k.value() == 0) by (nonlinear_arith)
            requires
                k.value() == 0,
        ;
        lemma_small_mod(acc.value(), m.value());
    }
    acc
}

/// The `h` below `m` with `2 * h` congruent to `x`.
pub fn half_mod(x: &U256, m: &U256) -> (r: U256)
    requires
        valid_modulus(m.value()),
        x.value() < m.value(),
    ensures
        r.value() < m.value(),
        congruent((2 * r.value()) as int, x.value() as int, m.value() as int),
{
    if x.is_even() {
        x.half()
    } else {
        let s = x.add_raw(m);
        let r = s.half();
        proof {
            assert(2 * r.value() == x.value() + m.value());
            lemma_mod_multiples_vanish(1, x.value() as int, m.value() as int);
        }
        r
    }
}

/// The inverse of `a` modulo `m`, where there is one.
///
/// The binary extended Euclidean algorithm: `u` and `v` start as `a` and `m`
/// and shrink by halving and subtracting, while `x1` and `x2` keep
/// `a * x1 = u` and `a * x2 = v` modulo `m`. Every common divisor of `u` and
/// `v` divides `a` and `m`, so where the two meet above one, none exists.
pub fn inv_mod(a: &U256, m: &U256) -> (r: Option<U256>)
    requires
        valid_modulus(m.value()),
        a.value() < m.value(),
    ensures
        match r {
            Some(x) => x.value() < m.value() && (a.value() * x.value()) % m.value() == 1,
            None => !invertible(a.value(), m.value()),
        },
{
    let ghost av = a.value();
    let ghost mv = m.value();
    if a.is_zero() {
        proof {
            assert forall|y: nat| #[trigger] ((av * y) % mv) != 1 by {
                assert(av * y == 0) by (nonlinear_arith)
                    requires
                        av == 0,
                ;
                lemma_small_mod(0, mv);
            }
        }
        return None;
    }
    let mut u = *a;
    let mut v = *m;
    let mut x1 = U256::one();
    let mut x2 = U256::zero();
    proof {
        assert(av * 1 == av) by (nonlinear_arith);
        assert(av * 0 == 0) by (nonlinear_arith);
        lemma_mod_multiples_vanish(-1, mv as int, mv as int);
    }
    loop
        invariant
            valid_modulus(mv),
            mv == m.value(),
            av == a.value(),
            0 < u.value() <= mv,
            0 < v.value() <= mv,
            x1.value() < mv,
            x2.value() < mv,
            congruent((av * x1.value()) as int, u.value() as int, mv as int),
            congruent((av * x2.value()) as int, v.value() as int, mv as int),
            forall|d: nat|
                divides(d, u.value()) && divides(d, v.value()) ==> divides(d, av) && divides(
                    d,
                    mv,
                ),
        decreases u.value() + v.value(),
    {
        let ghost u0 = u.value();
        let ghost v0 = v.value();
        let ghost x10 = x1.value();
        let ghost x20 = x2.value();
        if u.is_one() {
            proof {
                lemma_small_mod(1, mv);
            }
            return Some(x1);
        }
        if v.is_one() {
            proof {
                lemma_small_mod(1, mv);
            }
            return Some(x2);
        }
        if u.is_even() {
            u = u.half();
            x1 = half_mod(&x1, m);
            proof {
                lemma_halving_step(av, x10, x1.value(), u0, u.value(), mv);
                assert forall|d: nat| divides(d, u.value()) && divides(d, v.value()) implies divides(
                    d,
                    av,
                ) && divides(d, mv) by {
                    lemma_divides_double(d, u.value());
                }
            }
        } else if v.is_even() {
            v = v.half();
            x2 = half_mod(&x2, m);
            proof {
                lemma_halving_step(av, x20, x2.value(), v0, v.value(), mv);
                assert forall|d: nat| divides(d, u.value()) && divides(d, v.value()) implies divides(
                    d,
                    av,
                ) && divides(d, mv) by {
                    lemma_divides_double(d, v.value());
                }
            }
        } else if v.lt(&u) {
            u = u.sub_raw(&v);
            x1 = sub_mod(&x1, &x2, m);
            proof {
                lemma_subtracting_step(av, x10, x20, x1.value(), u0, v0, mv);
                assert forall|d: nat| divides(d, u.value()) && divides(d, v.value()) implies divides(
                    d,
                    av,
                ) && divides(d, mv) by {
                    lemma_divides_sum(d, u.value(), v0);
                }
            }
        } else if u.lt(&v) {
            v = v.sub_raw(&u);
            x2 = sub_mod(&x2, &x1, m);
            proof {
                lemma_subtracting_step(av, x20, x10, x2.value(), v0, u0, mv);
                assert forall|d: nat| divides(d, u.value()) && divides(d, v.value()) implies divides(
                    d,
                    av,
                ) && divides(d, mv) by {
                    lemma_divides_sum(d, v.value(), u0);
                }
            }
        } else {
            proof {
                let g = u0;
                assert(g == v0);
                assert(g % g == 0) by {
                    vstd::arithmetic::div_mod::lemma_mod_self_0(g as int);
                }
                assert(divides(g, u0) && divides(g, v0));
                lemma_common_divisor_no_inverse(av, mv, g);
            }
            return None;
        }
    }
}

/// Halving both sides keeps `a * x = u` modulo an odd `m`.
proof fn lemma_halving_step(a: nat, x0: nat, x1: nat, u0: nat, u1: nat, m: nat)
    requires
        valid_modulus(m),
        congruent((a * x0) as int, u0 as int, m as int),
        congruent((2 * x1) as int, x0 as int, m as int),
        u0 == 2 * u1,
    ensures
        congruent((a * x1) as int, u1 as int, m as int),
{
    let mi = m as int;
    lemma_congruent_mul(a as int, a as int, (2 * x1) as int, x0 as int, mi);
    assert(a * (2 * x1) == 2 * (a * x1)) by (nonlinear_arith);
    lemma_congruent_halve((a * x1) as int, u1 as int, mi);
}

/// Subtracting both sides keeps `a * x = u` modulo `m`.
proof fn lemma_subtracting_step(a: nat, x: nat, y: nat, z: nat, u: nat, v: nat, m: nat)
    requires
        m > 0,
        congruent((a * x) as int, u as int, m as int),
        congruent((a * y) as int, v as int, m as int),
        z == (x - y) % (m as int),
        u >= v,
    ensures
        congruent((a * z) as int, u - v, m as int),
{
    let mi = m as int;
    lemma_congruent_mod(x - y, mi);
    lemma_congruent_mul(a as int, a as int, z as int, x - y, mi);
    assert(a * (x - y) == a * x - a * y) by (nonlinear_arith);
    lemma_congruent_sub((a * x) as int, u as int, (a * y) as int, v as int, mi);
}

/// A divisor of a number divides its double.
proof fn lemma_divides_double(d: nat, x: nat)
    ensures
        divides(d, x) ==> divides(d, 2 * x),
{
    if divides(d, x) {
        lemma_fundamental_div_mod(x as int, d as int);
        let q = (x as int) / (d as int);
        assert(2 * x == d * (2 * q)) by (nonlinear_arith)
            requires
                x as int == d * q,
        ;
        lemma_mod_multiples_vanish(2 * q, 0, d as int);
        lemma_small_mod(0, d);
    }
}

/// A divisor of two numbers divides their sum.
proof fn lemma_divides_sum(d: nat, x: nat, y: nat)
    ensures
        divides(d, x) && divides(d, y) ==> divides(d, x + y),
{
    if divides(d, x) && divides(d, y) {
        lemma_add_mod_noop(x as int, y as int, d as int);
        lemma_small_mod(0, d);
    }
}

} // verus!
