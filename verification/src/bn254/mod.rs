//! The curve BN254: `y^2 = x^3 + 3` over the prime field, its sextic twist
//! over the quadratic extension, and the chips that are sized for it.

use crate::bigint::{big_from_limbs, limbs64_value};
use crate::bignum::big_value;
use crate::errors::ChipError;
use crate::fields::fp::{sizing_fits_native, FpChip};
use num_bigint::BigInt;
use vstd::arithmetic::power2::pow2;
use vstd::arithmetic::power::pow;
use vstd::prelude::*;

pub mod bls_signature;
pub mod bls_signature_test;
pub mod pairing;

verus! {

/// The parameter `x` of the curve family.
pub const BN_X: u64 = 4965661367192848881;

/// The part without `u` of `xi = 9 + u`, the sixth power of `w`.
pub const XI_0: i64 = 9;

/// The prime of the base field.
pub open spec fn base_modulus() -> int {
    0x30644e72e131a029b85045b68181585d97816a916871ca8d3c208c16d87cfd47int
}

/// The prime order of the groups.
pub open spec fn group_order() -> int {
    0x30644e72e131a029b85045b68181585d2833e84879b9709143e1f593f0000001int
}

/// The prime of the base field.
pub fn modulus() -> (r: BigInt)
    ensures
        big_value(r) == base_modulus(),
{
    let limbs: Vec<u64> = vec![
        0x3c208c16d87cfd47u64,
        0x97816a916871ca8du64,
        0xb85045b68181585du64,
        0x30644e72e131a029u64,
    ];
    let r = big_from_limbs(&limbs);
    proof {
        reveal_with_fuel(limbs64_value, 5);
        assert(limbs@.skip(1).skip(1) =~= limbs@.skip(2));
        assert(limbs@.skip(2).skip(1) =~= limbs@.skip(3));
        assert(limbs@.skip(3).skip(1) =~= limbs@.skip(4));
    }
    r
}

/// The prime order of the groups.
pub fn order() -> (r: BigInt)
    ensures
        big_value(r) == group_order(),
{
    let limbs: Vec<u64> = vec![
        0x43e1f593f0000001u64,
        0x2833e84879b97091u64,
        0xb85045b68181585du64,
        0x30644e72e131a029u64,
    ];
    let r = big_from_limbs(&limbs);
    proof {
        reveal_with_fuel(limbs64_value, 5);
        assert(limbs@.skip(1).skip(1) =~= limbs@.skip(2));
        assert(limbs@.skip(2).skip(1) =~= limbs@.skip(3));
        assert(limbs@.skip(3).skip(1) =~= limbs@.skip(4));
    }
    r
}

/// The chip of the base field on limbs of the given sizing inside the
/// native field of the given modulus.
pub fn fp_chip(limb_bits: usize, num_limbs: usize, native_modulus: BigInt) -> (r: Result<
    FpChip,
    ChipError,
>)
    ensures
        match r {
            Ok(chip) => {
                &&& chip.wf()
                &&& chip.modulus() == base_modulus()
                &&& chip.native() == big_value(native_modulus)
                &&& chip.limb_bits == limb_bits
                &&& chip.num_limbs == num_limbs
            },
            Err(e) => e == ChipError::BoundExceeded && !(sizing_fits_native(
                limb_bits,
                num_limbs,
                big_value(native_modulus),
            ) && base_modulus() < pow(pow2(limb_bits as nat) as int, num_limbs as nat)),
        },
{
    FpChip::new(modulus(), limb_bits, num_limbs, native_modulus)
}

} // verus!
