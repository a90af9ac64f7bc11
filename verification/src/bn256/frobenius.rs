//! The powers of the non-residue `9 + u` that the Frobenius maps of the
//! extensions multiply by.

use crate::bn256::fq::Fq;
use crate::bn256::fq2::Fq2;
use crate::bn256::fq2::Fq2View;
use crate::u256::limb;
use vstd::prelude::*;

verus! {

/// The non-residue to the power `(q^i - 1) / 3`, for `i` from 0 to 5.
pub open spec fn frobenius_coeff_fq6_c1(i: int) -> Fq2View {
    if i == 0 {
        Fq2View {
            c0: 0x0nat * limb() + 0x1nat,
            c1: 0x0nat * limb() + 0x0nat,
        }
    } else if i == 1 {
        Fq2View {
            c0: 0x2fb347984f7911f74c0bec3cf559b143nat * limb() + 0xb78cc310c2c3330c99e39557176f553dnat,
            c1: 0x16c9e55061ebae204ba4cc8bd75a0794nat * limb() + 0x32ae2a1d0b7c9dce1665d51c640fcba2nat,
        }
    } else if i == 2 {
        Fq2View {
            c0: 0x30644e72e131a0295e6dd9e7e0acccb0nat * limb() + 0xc28f069fbb966e3de4bd44e5607cfd48nat,
            c1: 0x0nat * limb() + 0x0nat,
        }
    } else if i == 3 {
        Fq2View {
            c0: 0x856e078b755ef0abaff1c77959f25acnat * limb() + 0x805ffd3d5d6942d37b746ee87bdcfb6dnat,
            c1: 0x4f1de41b3d1766fa9f30e6dec26094fnat * limb() + 0xfdf31bf98ff2631380cab2baaa586denat,
        }
    } else if i == 4 {
        Fq2View {
            c0: 0x59e26bcea0d48bacnat * limb() + 0xd4f263f1acdb5c4f5763473177fffffenat,
            c1: 0x0nat * limb() + 0x0nat,
        }
    } else {
        Fq2View {
            c0: 0x28be74d4bb943f51699582b87809d9canat * limb() + 0xf71614d4b0b71f3a62e913ee1dada9e4nat,
            c1: 0x14a88ae0cb747b99c2b86abcbe01477anat * limb() + 0x54f40eb4c3f6068dedae0bcec9c7aac7nat,
        }
    }
}

/// The non-residue to the power `(q^i - 1) / 3`, for `i` from 0 to 5.
pub fn frobenius_coeff_fq6_c1_of(i: usize) -> (r: Fq2)
    requires
        i < 6,
    ensures
        r@ == frobenius_coeff_fq6_c1(i as int),
{
    if i == 0 {
        Fq2 {
            c0: Fq::from_halves_below(0x0u128, 0x1u128),
            c1: Fq::from_halves_below(0x0u128, 0x0u128),
        }
    } else if i == 1 {
        Fq2 {
            c0: Fq::from_halves_below(0x2fb347984f7911f74c0bec3cf559b143u128, 0xb78cc310c2c3330c99e39557176f553du128),
            c1: Fq::from_halves_below(0x16c9e55061ebae204ba4cc8bd75a0794u128, 0x32ae2a1d0b7c9dce1665d51c640fcba2u128),
        }
    } else if i == 2 {
        Fq2 {
            c0: Fq::from_halves_below(0x30644e72e131a0295e6dd9e7e0acccb0u128, 0xc28f069fbb966e3de4bd44e5607cfd48u128),
            c1: Fq::from_halves_below(0x0u128, 0x0u128),
        }
    } else if i == 3 {
        Fq2 {
            c0: Fq::from_halves_below(0x856e078b755ef0abaff1c77959f25acu128, 0x805ffd3d5d6942d37b746ee87bdcfb6du128),
            c1: Fq::from_halves_below(0x4f1de41b3d1766fa9f30e6dec26094fu128, 0xfdf31bf98ff2631380cab2baaa586deu128),
        }
    } else if i == 4 {
        Fq2 {
            c0: Fq::from_halves_below(0x59e26bcea0d48bacu128, 0xd4f263f1acdb5c4f5763473177fffffeu128),
            c1: Fq::from_halves_below(0x0u128, 0x0u128),
        }
    } else {
        Fq2 {
            c0: Fq::from_halves_below(0x28be74d4bb943f51699582b87809d9cau128, 0xf71614d4b0b71f3a62e913ee1dada9e4u128),
            c1: Fq::from_halves_below(0x14a88ae0cb747b99c2b86abcbe01477au128, 0x54f40eb4c3f6068dedae0bcec9c7aac7u128),
        }
    }
}

/// The non-residue to the power `(2 q^i - 2) / 3`, for `i` from 0 to 5.
pub open spec fn frobenius_coeff_fq6_c2(i: int) -> Fq2View {
    if i == 0 {
        Fq2View {
            c0: 0x0nat * limb() + 0x1nat,
            c1: 0x0nat * limb() + 0x0nat,
        }
    } else if i == 1 {
        Fq2View {
            c0: 0x5b54f5e64eea80180f3c0b75a181e84nat * limb() + 0xd33365f7be94ec72848a1f55921ea762nat,
            c1: 0x2c145edbe7fd8aee9f3a80b03b0b1c92nat * limb() + 0x3685d2ea1bdec763c13b4711cd2b8126nat,
        }
    } else if i == 2 {
        Fq2View {
            c0: 0x59e26bcea0d48bacnat * limb() + 0xd4f263f1acdb5c4f5763473177fffffenat,
            c1: 0x0nat * limb() + 0x0nat,
        }
    } else if i == 3 {
        Fq2View {
            c0: 0xbc58c6611c08dab19bee0f7b5b2444enat * limb() + 0xe633094575b06bcb0e1a92bc3ccbf066nat,
            c1: 0x23d5e999e1910a12feb0f6ef0cd21d04nat * limb() + 0xa44a9e08737f96e55fe3ed9d730c239fnat,
        }
    } else if i == 4 {
        Fq2View {
            c0: 0x30644e72e131a0295e6dd9e7e0acccb0nat * limb() + 0xc28f069fbb966e3de4bd44e5607cfd48nat,
            c1: 0x0nat * limb() + 0x0nat,
        }
    } else {
        Fq2View {
            c0: 0x1ee972ae6a826a7d1d9da40771b6f589nat * limb() + 0xde1afb54342c724fa97bda050992657fnat,
            c1: 0x10de546ff8d4ab51d2b513cdbb257724nat * limb() + 0x54326430418536d15721e37e70c255c9nat,
        }
    }
}

/// The non-residue to the power `(2 q^i - 2) / 3`, for `i` from 0 to 5.
pub fn frobenius_coeff_fq6_c2_of(i: usize) -> (r: Fq2)
    requires
        i < 6,
    ensures
        r@ == frobenius_coeff_fq6_c2(i as int),
{
    if i == 0 {
        Fq2 {
            c0: Fq::from_halves_below(0x0u128, 0x1u128),
            c1: Fq::from_halves_below(0x0u128, 0x0u128),
        }
    } else if i == 1 {
        Fq2 {
            c0: Fq::from_halves_below(0x5b54f5e64eea80180f3c0b75a181e84u128, 0xd33365f7be94ec72848a1f55921ea762u128),
            c1: Fq::from_halves_below(0x2c145edbe7fd8aee9f3a80b03b0b1c92u128, 0x3685d2ea1bdec763c13b4711cd2b8126u128),
        }
    } else if i == 2 {
        Fq2 {
            c0: Fq::from_halves_below(0x59e26bcea0d48bacu128, 0xd4f263f1acdb5c4f5763473177fffffeu128),
            c1: Fq::from_halves_below(0x0u128, 0x0u128),
        }
    } else if i == 3 {
        Fq2 {
            c0: Fq::from_halves_below(0xbc58c6611c08dab19bee0f7b5b2444eu128, 0xe633094575b06bcb0e1a92bc3ccbf066u128),
            c1: Fq::from_halves_below(0x23d5e999e1910a12feb0f6ef0cd21d04u128, 0xa44a9e08737f96e55fe3ed9d730c239fu128),
        }
    } else if i == 4 {
        Fq2 {
            c0: Fq::from_halves_below(0x30644e72e131a0295e6dd9e7e0acccb0u128, 0xc28f069fbb966e3de4bd44e5607cfd48u128),
            c1: Fq::from_halves_below(0x0u128, 0x0u128),
        }
    } else {
        Fq2 {
            c0: Fq::from_halves_below(0x1ee972ae6a826a7d1d9da40771b6f589u128, 0xde1afb54342c724fa97bda050992657fu128),
            c1: Fq::from_halves_below(0x10de546ff8d4ab51d2b513cdbb257724u128, 0x54326430418536d15721e37e70c255c9u128),
        }
    }
}

/// The non-residue to the power `(q^i - 1) / 6`, for `i` from 0 to 11.
pub open spec fn frobenius_coeff_fq12_c1(i: int) -> Fq2View {
    if i == 0 {
        Fq2View {
            c0: 0x0nat * limb() + 0x1nat,
            c1: 0x0nat * limb() + 0x0nat,
        }
    } else if i == 1 {
        Fq2View {
            c0: 0x1284b71c2865a7dfe8b99fdd76e68b60nat * limb() + 0x5c521e08292f2176d60b35dadcc9e470nat,
            c1: 0x246996f3b4fae7e6a6327cfe12150b8enat * limb() + 0x747992778eeec7e5ca5cf05f80f362acnat,
        }
    } else if i == 2 {
        Fq2View {
            c0: 0x30644e72e131a0295e6dd9e7e0acccb0nat * limb() + 0xc28f069fbb966e3de4bd44e5607cfd49nat,
            c1: 0x0nat * limb() + 0x0nat,
        }
    } else if i == 3 {
        Fq2View {
            c0: 0x19dc81cfcc82e4bbefe9608cd0acaa90nat * limb() + 0x894cb38dbe55d24ae86f7d391ed4a67fnat,
            c1: 0xabf8b60be77d7306cbeee33576139dnat * limb() + 0x7f03a5e397d439ec7694aa2bf4c0c101nat,
        }
    } else if i == 4 {
        Fq2View {
            c0: 0x30644e72e131a0295e6dd9e7e0acccb0nat * limb() + 0xc28f069fbb966e3de4bd44e5607cfd48nat,
            c1: 0x0nat * limb() + 0x0nat,
        }
    } else if i == 5 {
        Fq2View {
            c0: 0x757cab3a41d3cdc072fc0af59c61f30nat * limb() + 0x2cfa95859526b0d41264475e420ac20fnat,
            c1: 0xca6b035381e35b618e9b79ba4e2606cnat * limb() + 0xa20b7dfd71573c93e85845e34c4a5b9cnat,
        }
    } else if i == 6 {
        Fq2View {
            c0: 0x30644e72e131a029b85045b68181585dnat * limb() + 0x97816a916871ca8d3c208c16d87cfd46nat,
            c1: 0x0nat * limb() + 0x0nat,
        }
    } else if i == 7 {
        Fq2View {
            c0: 0x1ddf9756b8cbf849cf96a5d90a9accfdnat * limb() + 0x3b2f4c893f42a9166615563bfbb318d7nat,
            c1: 0xbfab77f2c36b843121dc8b86f6c4ccfnat * limb() + 0x2307d819d98302a771c39bb757899a9bnat,
        }
    } else if i == 8 {
        Fq2View {
            c0: 0x59e26bcea0d48bacnat * limb() + 0xd4f263f1acdb5c4f5763473177fffffenat,
            c1: 0x0nat * limb() + 0x0nat,
        }
    } else if i == 9 {
        Fq2View {
            c0: 0x1687cca314aebb6dc866e529b0d4adcdnat * limb() + 0xe34b703aa1bf84253b10eddb9a856c8nat,
            c1: 0x2fb855bcd54a22b6b18456d34c0b44c0nat * limb() + 0x187dc4add09d90a0c58be1eae3bc3c46nat,
        }
    } else if i == 10 {
        Fq2View {
            c0: 0x59e26bcea0d48bacnat * limb() + 0xd4f263f1acdb5c4f5763473177ffffffnat,
            c1: 0x0nat * limb() + 0x0nat,
        }
    } else {
        Fq2View {
            c0: 0x290c83bf3d14634db120850727bb392dnat * limb() + 0x6a86d50bd34b19b929bc44b896723b38nat,
            c1: 0x23bd9e3da9136a739f668e1adc9ef7f0nat * limb() + 0xf575ec93f71a8df953c846338c32a1abnat,
        }
    }
}

/// The non-residue to the power `(q^i - 1) / 6`, for `i` from 0 to 11.
pub fn frobenius_coeff_fq12_c1_of(i: usize) -> (r: Fq2)
    requires
        i < 12,
    ensures
        r@ == frobenius_coeff_fq12_c1(i as int),
{
    if i == 0 {
        Fq2 {
            c0: Fq::from_halves_below(0x0u128, 0x1u128),
            c1: Fq::from_halves_below(0x0u128, 0x0u128),
        }
    } else if i == 1 {
        Fq2 {
            c0: Fq::from_halves_below(0x1284b71c2865a7dfe8b99fdd76e68b60u128, 0x5c521e08292f2176d60b35dadcc9e470u128),
            c1: Fq::from_halves_below(0x246996f3b4fae7e6a6327cfe12150b8eu128, 0x747992778eeec7e5ca5cf05f80f362acu128),
        }
    } else if i == 2 {
        Fq2 {
            c0: Fq::from_halves_below(0x30644e72e131a0295e6dd9e7e0acccb0u128, 0xc28f069fbb966e3de4bd44e5607cfd49u128),
            c1: Fq::from_halves_below(0x0u128, 0x0u128),
        }
    } else if i == 3 {
        Fq2 {
            c0: Fq::from_halves_below(0x19dc81cfcc82e4bbefe9608cd0acaa90u128, 0x894cb38dbe55d24ae86f7d391ed4a67fu128),
            c1: Fq::from_halves_below(0xabf8b60be77d7306cbeee33576139du128, 0x7f03a5e397d439ec7694aa2bf4c0c101u128),
        }
    } else if i == 4 {
        Fq2 {
            c0: Fq::from_halves_below(0x30644e72e131a0295e6dd9e7e0acccb0u128, 0xc28f069fbb966e3de4bd44e5607cfd48u128),
            c1: Fq::from_halves_below(0x0u128, 0x0u128),
        }
    } else if i == 5 {
        Fq2 {
            c0: Fq::from_halves_below(0x757cab3a41d3cdc072fc0af59c61f30u128, 0x2cfa95859526b0d41264475e420ac20fu128),
            c1: Fq::from_halves_below(0xca6b035381e35b618e9b79ba4e2606cu128, 0xa20b7dfd71573c93e85845e34c4a5b9cu128),
        }
    } else if i == 6 {
        Fq2 {
            c0: Fq::from_halves_below(0x30644e72e131a029b85045b68181585du128, 0x97816a916871ca8d3c208c16d87cfd46u128),
            c1: Fq::from_halves_below(0x0u128, 0x0u128),
        }
    } else if i == 7 {
        Fq2 {
            c0: Fq::from_halves_below(0x1ddf9756b8cbf849cf96a5d90a9accfdu128, 0x3b2f4c893f42a9166615563bfbb318d7u128),
            c1: Fq::from_halves_below(0xbfab77f2c36b843121dc8b86f6c4ccfu128, 0x2307d819d98302a771c39bb757899a9bu128),
        }
    } else if i == 8 {
        Fq2 {
            c0: Fq::from_halves_below(0x59e26bcea0d48bacu128, 0xd4f263f1acdb5c4f5763473177fffffeu128),
            c1: Fq::from_halves_below(0x0u128, 0x0u128),
        }
    } else if i == 9 {
        Fq2 {
            c0: Fq::from_halves_below(0x1687cca314aebb6dc866e529b0d4adcdu128, 0xe34b703aa1bf84253b10eddb9a856c8u128),
            c1: Fq::from_halves_below(0x2fb855bcd54a22b6b18456d34c0b44c0u128, 0x187dc4add09d90a0c58be1eae3bc3c46u128),
        }
    } else if i == 10 {
        Fq2 {
            c0: Fq::from_halves_below(0x59e26bcea0d48bacu128, 0xd4f263f1acdb5c4f5763473177ffffffu128),
            c1: Fq::from_halves_below(0x0u128, 0x0u128),
        }
    } else {
        Fq2 {
            c0: Fq::from_halves_below(0x290c83bf3d14634db120850727bb392du128, 0x6a86d50bd34b19b929bc44b896723b38u128),
            c1: Fq::from_halves_below(0x23bd9e3da9136a739f668e1adc9ef7f0u128, 0xf575ec93f71a8df953c846338c32a1abu128),
        }
    }
}

} // verus!
