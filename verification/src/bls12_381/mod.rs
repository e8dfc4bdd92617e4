//! The curve BLS12-381: `y^2 = x^3 + 4` over the prime field, its sextic
//! twist over the quadratic extension, and the chips that are sized for it.

use crate::bigint::{big_from_limbs, limbs64_value};
use crate::bignum::big_value;
use crate::errors::ChipError;
use crate::fields::fp::{sizing_fits_native, FpChip};
use num_bigint::BigInt;
use vstd::arithmetic::power2::pow2;
use vstd::arithmetic::power::pow;
use vstd::prelude::*;

pub mod bls_signature;
pub mod pairing;

verus! {

/// The absolute value of the parameter `x` of the curve family, which is
/// negative.
pub const BLS_X: u64 = 0xd201000000010000;

/// The part without `u` of `xi = 1 + u`, the sixth power of `w`.
pub const XI_0: i64 = 1;

/// The prime of the base field.
pub open spec fn base_modulus() -> int {
    0x1a0111ea397fe69a4b1ba7b6434bacd764774b84f38512bf6730d2a0f6b0f6241eabfffeb153ffffb9feffffffffaaabint
}

/// The prime order of the groups.
pub open spec fn group_order() -> int {
    0x73eda753299d7d483339d80809a1d80553bda402fffe5bfeffffffff00000001int
}

/// The prime of the base field.
pub fn modulus() -> (r: BigInt)
    ensures
        big_value(r) == base_modulus(),
{
    let limbs: Vec<u64> = vec![
        0xb9feffffffffaaabu64,
        0x1eabfffeb153ffffu64,
        0x6730d2a0f6b0f624u64,
        0x64774b84f38512bfu64,
        0x4b1ba7b6434bacd7u64,
        0x1a0111ea397fe69au64,
    ];
    let r = big_from_limbs(&limbs);
    proof {
        reveal_with_fuel(limbs64_value, 7);
        assert(limbs@.skip(1).skip(1) =~= limbs@.skip(2));
        assert(limbs@.skip(2).skip(1) =~= limbs@.skip(3));
        assert(limbs@.skip(3).skip(1) =~= limbs@.skip(4));
        assert(limbs@.skip(4).skip(1) =~= limbs@.skip(5));
        assert(limbs@.skip(5).skip(1) =~= limbs@.skip(6));
    }
    r
}

/// The prime order of the groups.
pub fn order() -> (r: BigInt)
    ensures
        big_value(r) == group_order(),
{
    let limbs: Vec<u64> = vec![
        0xffffffff00000001u64,
        0x53bda402fffe5bfeu64,
        0x3339d80809a1d805u64,
        0x73eda753299d7d48u64,
    ];
    let r = big_from_limbs(&limbs);
    proof {
        reveal_with_fuel(limbs64_value, 5);
        assert(limbs@.skip(1).skip(1) =~= limbs@.skip(2));
        assert(limbs@.skip(2).skip(1) =~= limbs@.skip(3));
        assert(limbs@.skip(3).skip(1) =~= limbs@.skip(4));
    }
    r
}

/// The chip of the base field on limbs of the given sizing inside the
/// native field of the given modulus.
pub fn fp_chip(limb_bits: usize, num_limbs: usize, native_modulus: BigInt) -> (r: Result<
    FpChip,
    ChipError,
>)
    ensures
        match r {
            Ok(chip) => {
                &&& chip.wf()
                &&& chip.modulus() == base_modulus()
                &&& chip.native() == big_value(native_modulus)
                &&& chip.limb_bits == limb_bits
                &&& chip.num_limbs == num_limbs
            },
            Err(e) => e == ChipError::BoundExceeded && !(sizing_fits_native(
                limb_bits,
                num_limbs,
                big_value(native_modulus),
            ) && base_modulus() < pow(pow2(limb_bits as nat) as int, num_limbs as nat)),
        },
{
    FpChip::new(modulus(), limb_bits, num_limbs, native_modulus)
}

} // verus!
