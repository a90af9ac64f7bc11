//! The few facts of field arithmetic that the gates need.

use crate::bn256::fr::fr_add;
use crate::bn256::fr::fr_inverse_or_zero;
use crate::bn256::fr::fr_is_inverse;
use crate::bn256::fr::fr_modulus;
use crate::bn256::fr::fr_mul;
use crate::bn256::fr::fr_sub;
use crate::tables::processor_table::deselector;
use crate::tables::processor_table::deselector_upto;
use crate::u256::invertible;
use crate::utils::opcode_at;
use vstd::arithmetic::div_mod::lemma_add_mod_noop;
use vstd::arithmetic::div_mod::lemma_fundamental_div_mod;
use vstd::arithmetic::div_mod::lemma_mul_mod_noop_left;
use vstd::arithmetic::div_mod::lemma_mod_multiples_vanish;
use vstd::arithmetic::div_mod::lemma_small_mod;
use vstd::arithmetic::power2::lemma2_to64;
use vstd::arithmetic::power2::lemma_pow2_strictly_increases;
use vstd::arithmetic::power2::pow2;
use vstd::prelude::*;

verus! {

/// Every number from one up to below `bound` has an inverse in the field.
/// The field's modulus is a prime, so this holds of every bound up to the
/// modulus; nothing here proves that it is one. `lemma_inverses_below_byte`
/// proves the bound 256 without it.
pub open spec fn inverses_below(bound: nat) -> bool {
    forall|v: nat| 0 < v < bound ==> #[trigger] invertible(v, fr_modulus())
}

/// Appending a word to a number changes its remainder as it changes the
/// remainder's.
proof fn lemma_shift_mod(x: int, word: int, m: int)
    requires
        m > 0,
    ensures
        ((x % m) * 0x1_0000 + word) % m == (x * 0x1_0000 + word) % m,
{
    lemma_mul_mod_noop_left(x, 0x1_0000, m);
    lemma_add_mod_noop((x % m) * 0x1_0000, word, m);
    lemma_add_mod_noop(x * 0x1_0000, word, m);
}

/// No number from two to 255 divides the field's modulus. The remainder is
/// computed word by word, from the most significant of the sixteen words
/// of the modulus down.
proof fn lemma_no_small_factor(k: nat)
    requires
        2 <= k < 256,
    ensures
        fr_modulus() % k != 0,
{
    let d: u32 = k as u32;
    let m: int = k as int;
    let r0: u32 = 0x3064u32 % d;
    let r1: u32 = ((r0 * 0x1_0000u32 + 0x4e72u32) as u32) % d;
    let r2: u32 = ((r1 * 0x1_0000u32 + 0xe131u32) as u32) % d;
    let r3: u32 = ((r2 * 0x1_0000u32 + 0xa029u32) as u32) % d;
    let r4: u32 = ((r3 * 0x1_0000u32 + 0xb850u32) as u32) % d;
    let r5: u32 = ((r4 * 0x1_0000u32 + 0x45b6u32) as u32) % d;
    let r6: u32 = ((r5 * 0x1_0000u32 + 0x8181u32) as u32) % d;
    let r7: u32 = ((r6 * 0x1_0000u32 + 0x585du32) as u32) % d;
    let r8: u32 = ((r7 * 0x1_0000u32 + 0x2833u32) as u32) % d;
    let r9: u32 = ((r8 * 0x1_0000u32 + 0xe848u32) as u32) % d;
    let r10: u32 = ((r9 * 0x1_0000u32 + 0x79b9u32) as u32) % d;
    let r11: u32 = ((r10 * 0x1_0000u32 + 0x7091u32) as u32) % d;
    let r12: u32 = ((r11 * 0x1_0000u32 + 0x43e1u32) as u32) % d;
    let r13: u32 = ((r12 * 0x1_0000u32 + 0xf593u32) as u32) % d;
    let r14: u32 = ((r13 * 0x1_0000u32 + 0xf000u32) as u32) % d;
    let r15: u32 = ((r14 * 0x1_0000u32 + 0x0001u32) as u32) % d;
    assert(r15 != 0) by (bit_vector)
        requires
            2 <= d < 256,
            r0 == 0x3064u32 % d,
            r1 == ((r0 * 0x1_0000u32 + 0x4e72u32) as u32) % d,
            r2 == ((r1 * 0x1_0000u32 + 0xe131u32) as u32) % d,
            r3 == ((r2 * 0x1_0000u32 + 0xa029u32) as u32) % d,
            r4 == ((r3 * 0x1_0000u32 + 0xb850u32) as u32) % d,
            r5 == ((r4 * 0x1_0000u32 + 0x45b6u32) as u32) % d,
            r6 == ((r5 * 0x1_0000u32 + 0x8181u32) as u32) % d,
            r7 == ((r6 * 0x1_0000u32 + 0x585du32) as u32) % d,
            r8 == ((r7 * 0x1_0000u32 + 0x2833u32) as u32) % d,
            r9 == ((r8 * 0x1_0000u32 + 0xe848u32) as u32) % d,
            r10 == ((r9 * 0x1_0000u32 + 0x79b9u32) as u32) % d,
            r11 == ((r10 * 0x1_0000u32 + 0x7091u32) as u32) % d,
            r12 == ((r11 * 0x1_0000u32 + 0x43e1u32) as u32) % d,
            r13 == ((r12 * 0x1_0000u32 + 0xf593u32) as u32) % d,
            r14 == ((r13 * 0x1_0000u32 + 0xf000u32) as u32) % d,
            r15 == ((r14 * 0x1_0000u32 + 0x0001u32) as u32) % d,
    ;
    let p0: int = 0x3064;
    let p1: int = p0 * 0x1_0000 + 0x4e72;
    let p2: int = p1 * 0x1_0000 + 0xe131;
    let p3: int = p2 * 0x1_0000 + 0xa029;
    let p4: int = p3 * 0x1_0000 + 0xb850;
    let p5: int = p4 * 0x1_0000 + 0x45b6;
    let p6: int = p5 * 0x1_0000 + 0x8181;
    let p7: int = p6 * 0x1_0000 + 0x585d;
    let p8: int = p7 * 0x1_0000 + 0x2833;
    let p9: int = p8 * 0x1_0000 + 0xe848;
    let p10: int = p9 * 0x1_0000 + 0x79b9;
    let p11: int = p10 * 0x1_0000 + 0x7091;
    let p12: int = p11 * 0x1_0000 + 0x43e1;
    let p13: int = p12 * 0x1_0000 + 0xf593;
    let p14: int = p13 * 0x1_0000 + 0xf000;
    let p15: int = p14 * 0x1_0000 + 0x0001;
    assert(r0 == p0 % m);
    lemma_shift_mod(p0, 0x4e72, m);
    assert(r1 == p1 % m);
    lemma_shift_mod(p1, 0xe131, m);
    assert(r2 == p2 % m);
    lemma_shift_mod(p2, 0xa029, m);
    assert(r3 == p3 % m);
    lemma_shift_mod(p3, 0xb850, m);
    assert(r4 == p4 % m);
    lemma_shift_mod(p4, 0x45b6, m);
    assert(r5 == p5 % m);
    lemma_shift_mod(p5, 0x8181, m);
    assert(r6 == p6 % m);
    lemma_shift_mod(p6, 0x585d, m);
    assert(r7 == p7 % m);
    lemma_shift_mod(p7, 0x2833, m);
    assert(r8 == p8 % m);
    lemma_shift_mod(p8, 0xe848, m);
    assert(r9 == p9 % m);
    lemma_shift_mod(p9, 0x79b9, m);
    assert(r10 == p10 % m);
    lemma_shift_mod(p10, 0x7091, m);
    assert(r11 == p11 % m);
    lemma_shift_mod(p11, 0x43e1, m);
    assert(r12 == p12 % m);
    lemma_shift_mod(p12, 0xf593, m);
    assert(r13 == p13 % m);
    lemma_shift_mod(p13, 0xf000, m);
    assert(r14 == p14 % m);
    lemma_shift_mod(p14, 0x0001, m);
    assert(r15 == p15 % m);
    assert(p15 == fr_modulus());
}

/// A number from one to 255 has an inverse in the field: the remainder
/// that it leaves of the modulus is smaller and not zero, and from an
/// inverse of the remainder comes one of the number.
proof fn lemma_small_inverse(a: nat)
    requires
        0 < a < 256,
    ensures
        invertible(a, fr_modulus()),
    decreases a,
{
    let p = fr_modulus();
    if a == 1 {
        assert(1 * 1 == 1) by (nonlinear_arith);
        lemma_small_mod(1, p);
        assert(((a * 1) % p) == 1);
    } else {
        lemma_no_small_factor(a);
        let r = p % a;
        let q = p / a;
        lemma_fundamental_div_mod(p as int, a as int);
        lemma_small_inverse(r);
        let yr = choose|y: nat| #[trigger] ((r * y) % p) == 1;
        let m = (r * yr) / p;
        lemma_fundamental_div_mod((r * yr) as int, p as int);
        let y = q * yr * (p - 1) as nat;
        let k = a * q * yr - yr + m;
        assert(a * y == p * k + 1) by (nonlinear_arith)
            requires
                p == a * q + r,
                r * yr == p * m + 1,
                y == q * yr * (p - 1),
                k == a * q * yr - yr + m,
        ;
        lemma_mod_multiples_vanish(k, 1, p as int);
        lemma_small_mod(1, p);
        assert(((a * y) % p) == 1);
    }
}

/// The numbers of up to `bits` bits, but zero, have inverses in the field:
/// proved for up to eight bits, and a condition on the field for more.
pub open spec fn inverses_for(bits: u64) -> bool {
    bits <= 8 || inverses_below(pow2(bits as nat))
}

/// Where the numbers of `bits` bits have inverses, each one below two to
/// the power `bits` has.
pub proof fn lemma_inverses_for(bits: u64)
    requires
        inverses_for(bits),
    ensures
        inverses_below(pow2(bits as nat)),
{
    if bits <= 8 {
        lemma_inverses_below_byte();
        lemma2_to64();
        if bits < 8 {
            lemma_pow2_strictly_increases(bits as nat, 8);
        }
    }
}

/// Every number that fits in a byte, but zero, has an inverse in the field.
pub proof fn lemma_inverses_below_byte()
    ensures
        inverses_below(256),
{
    assert forall|v: nat| 0 < v < 256 implies #[trigger] invertible(v, fr_modulus()) by {
        lemma_small_inverse(v);
    }
}

/// A product with a zero factor is zero.
pub proof fn lemma_mul_zero(x: nat)
    ensures
        fr_mul(x, 0) == 0,
        fr_mul(0, x) == 0,
{
    assert(x * 0 == 0 && 0 * x == 0) by (nonlinear_arith);
}

/// Where `v` has an inverse, `inverse_or_zero` is one; zero has none.
pub proof fn lemma_inverse_or_zero(v: nat)
    ensures
        invertible(v, fr_modulus()) ==> fr_mul(v, fr_inverse_or_zero(v)) == 1,
        fr_inverse_or_zero(0) == 0,
{
    if invertible(v, fr_modulus()) {
        let y = choose|y: nat| #[trigger] ((v * y) % fr_modulus()) == 1;
        let b = y % fr_modulus();
        assert(fr_is_inverse(v, b)) by {
            vstd::arithmetic::div_mod::lemma_mul_mod_noop_right(
                v as int,
                y as int,
                fr_modulus() as int,
            );
        }
        assert(b < fr_modulus() && fr_is_inverse(v, b));
    }
    assert forall|b: nat| !(b < fr_modulus() && fr_is_inverse(0, b)) by {
        assert(0 * b == 0) by (nonlinear_arith);
    }
}

/// The deselector of `op` vanishes at every other opcode.
pub proof fn lemma_deselector_other(j: int, op: u8)
    requires
        0 <= j < 8,
        opcode_at(j) != op,
    ensures
        deselector(opcode_at(j) as nat, op) == 0,
{
    let ci = opcode_at(j) as nat;
    assert(fr_sub(ci, ci) == 0);
    lemma_deselector_stays_zero(ci, op, j + 1, 8);
    let before = deselector_upto(ci, op, j);
    lemma_mul_zero(before);
}

/// Once a factor is zero the product over more opcodes stays zero.
proof fn lemma_deselector_stays_zero(ci: nat, op: u8, from: int, to: int)
    requires
        1 <= from <= to,
        opcode_at(from - 1) as nat == ci,
        opcode_at(from - 1) != op,
    ensures
        deselector_upto(ci, op, to) == 0,
    decreases to - from,
{
    if to == from {
        lemma_mul_zero(deselector_upto(ci, op, from - 1));
        assert(fr_sub(ci, ci) == 0);
    } else {
        lemma_deselector_stays_zero(ci, op, from, to - 1);
        lemma_mul_zero(fr_sub(ci, opcode_at(to - 1) as nat));
    }
}

/// A difference and a sum in the field are the difference and the sum of
/// the numbers, reduced once.
pub proof fn lemma_sub_add(a: nat, b: nat, c: nat)
    ensures
        fr_add(fr_sub(a, b), c) == (a - b + c) % (fr_modulus() as int),
        fr_sub(fr_sub(a, b), c) == (a - b - c) % (fr_modulus() as int),
{
    let p = fr_modulus() as int;
    vstd::arithmetic::div_mod::lemma_add_mod_noop(a - b, c as int, p);
    vstd::arithmetic::div_mod::lemma_sub_mod_noop(a - b, c as int, p);
    lemma_small_mod(c % fr_modulus(), fr_modulus());
    vstd::arithmetic::div_mod::lemma_mod_twice(c as int, p);
    vstd::arithmetic::div_mod::lemma_add_mod_noop_right((a - b) % p, c as int, p);
    vstd::arithmetic::div_mod::lemma_sub_mod_noop_right((a - b) % p, c as int, p);
}

} // verus!
